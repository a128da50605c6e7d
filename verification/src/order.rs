//! The order in which names and paths are sorted.
//!
//! Sequences are compared lexicographically: at the first position where two
//! sequences differ the elements decide, and a sequence that is a prefix of
//! another comes first. Names are sequences of characters, compared by code
//! point; paths are sequences of names.

use vstd::prelude::*;

verus! {

/// Lexicographic "less than or equal" of two sequences, where `lt` orders two
/// elements that differ.
pub open spec fn lex_le<A>(a: Seq<A>, b: Seq<A>, lt: spec_fn(A, A) -> bool) -> bool
    decreases a.len(),
{
    if a.len() == 0 {
        true
    } else if b.len() == 0 {
        false
    } else if a[0] == b[0] {
        lex_le(a.drop_first(), b.drop_first(), lt)
    } else {
        lt(a[0], b[0])
    }
}

/// What `lex_le` needs of the order of the elements: of two elements that
/// differ exactly one comes before the other, and the order is transitive.
pub open spec fn is_strict_total_order<A>(lt: spec_fn(A, A) -> bool) -> bool {
    &&& forall|x: A, y: A| x != y ==> (#[trigger] lt(x, y) <==> !lt(y, x))
    &&& forall|x: A, y: A, z: A| #[trigger] lt(x, y) && #[trigger] lt(y, z) ==> lt(x, z)
}

/// Every sequence is less than or equal to itself.
pub proof fn lex_le_is_reflexive<A>(a: Seq<A>, lt: spec_fn(A, A) -> bool)
    ensures
        lex_le(a, a, lt),
    decreases a.len(),
{
    if a.len() > 0 {
        lex_le_is_reflexive(a.drop_first(), lt);
    }
}

/// Any two sequences are comparable.
pub proof fn lex_le_is_total<A>(a: Seq<A>, b: Seq<A>, lt: spec_fn(A, A) -> bool)
    requires
        is_strict_total_order(lt),
    ensures
        lex_le(a, b, lt) || lex_le(b, a, lt),
    decreases a.len(),
{
    if a.len() > 0 && b.len() > 0 {
        if a[0] == b[0] {
            lex_le_is_total(a.drop_first(), b.drop_first(), lt);
        }
    }
}

/// Two sequences that are each less than or equal to the other are equal.
pub proof fn lex_le_is_antisymmetric<A>(a: Seq<A>, b: Seq<A>, lt: spec_fn(A, A) -> bool)
    requires
        is_strict_total_order(lt),
        lex_le(a, b, lt),
        lex_le(b, a, lt),
    ensures
        a == b,
    decreases a.len(),
{
    if a.len() > 0 && b.len() > 0 {
        if a[0] == b[0] {
            lex_le_is_antisymmetric(a.drop_first(), b.drop_first(), lt);
            assert(a =~= seq![a[0]] + a.drop_first());
        }
    }
}

/// The order is transitive.
pub proof fn lex_le_is_transitive<A>(a: Seq<A>, b: Seq<A>, c: Seq<A>, lt: spec_fn(A, A) -> bool)
    requires
        is_strict_total_order(lt),
        lex_le(a, b, lt),
        lex_le(b, c, lt),
    ensures
        lex_le(a, c, lt),
    decreases a.len(),
{
    if a.len() > 0 && b.len() > 0 && c.len() > 0 {
        if a[0] == b[0] && b[0] == c[0] {
            lex_le_is_transitive(a.drop_first(), b.drop_first(), c.drop_first(), lt);
        }
    }
}

/// Characters in the order of their code points.
pub open spec fn char_lt() -> spec_fn(char, char) -> bool {
    |x: char, y: char| (x as u32) < (y as u32)
}

/// Whether the name `a` sorts before the name `b`, or is `b`.
pub open spec fn name_le(a: Seq<char>, b: Seq<char>) -> bool {
    lex_le(a, b, char_lt())
}

/// Names in the order of [`name_le`], as an order of elements.
pub open spec fn name_lt() -> spec_fn(Seq<char>, Seq<char>) -> bool {
    |a: Seq<char>, b: Seq<char>| name_le(a, b)
}

/// Whether the path `p` sorts before the path `q`, or is `q`. Paths are
/// compared name by name.
pub open spec fn path_le(p: Seq<Seq<char>>, q: Seq<Seq<char>>) -> bool {
    lex_le(p, q, name_lt())
}

/// Code points order characters strictly and totally.
pub proof fn char_lt_is_strict_total_order()
    ensures
        is_strict_total_order(char_lt()),
{
    assert forall|x: char, y: char| x != y implies (#[trigger] char_lt()(x, y) <==> !char_lt()(
        y,
        x,
    )) by {
        if (x as u32) == (y as u32) {
            vstd::utf8::char_u32_cast(x, x as u32);
            vstd::utf8::char_u32_cast(y, y as u32);
        }
    }
}

/// Among names that differ, [`name_le`] is a strict total order.
pub proof fn name_lt_is_strict_total_order()
    ensures
        is_strict_total_order(name_lt()),
{
    char_lt_is_strict_total_order();
    assert forall|x: Seq<char>, y: Seq<char>| x != y implies (#[trigger] name_lt()(x, y)
        <==> !name_lt()(y, x)) by {
        lex_le_is_total(x, y, char_lt());
        if name_le(x, y) && name_le(y, x) {
            lex_le_is_antisymmetric(x, y, char_lt());
        }
    }
    assert forall|x: Seq<char>, y: Seq<char>, z: Seq<char>| #[trigger]
        name_lt()(x, y) && #[trigger] name_lt()(y, z) implies name_lt()(x, z) by {
        lex_le_is_transitive(x, y, z, char_lt());
    }
}

/// The order of paths is a total order: reflexive, total, antisymmetric and
/// transitive.
pub proof fn path_le_is_total_order(p: Seq<Seq<char>>, q: Seq<Seq<char>>, r: Seq<Seq<char>>)
    ensures
        path_le(p, p),
        path_le(p, q) || path_le(q, p),
        path_le(p, q) && path_le(q, p) ==> p == q,
        path_le(p, q) && path_le(q, r) ==> path_le(p, r),
{
    name_lt_is_strict_total_order();
    lex_le_is_reflexive(p, name_lt());
    lex_le_is_total(p, q, name_lt());
    if path_le(p, q) && path_le(q, p) {
        lex_le_is_antisymmetric(p, q, name_lt());
    }
    if path_le(p, q) && path_le(q, r) {
        lex_le_is_transitive(p, q, r, name_lt());
    }
}

} // verus!
