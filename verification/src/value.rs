//! The configuration tree and its image in the style language's value model.
//!
//! A site's configuration arrives as a dynamically typed tree. Stylesheets read
//! it through a custom function, so every node has to become a value the style
//! language knows. [`map_value`] does that conversion; [`bridge`] is its
//! mathematical statement, and the proof functions at the end of the file say
//! what the conversion keeps.
//!
//! Numbers are held as the bit pattern of an IEEE 754 binary64 value, so that
//! the tree stays a plain value that can be compared bit for bit.

use vstd::prelude::*;

verus! {

/// A dynamically typed configuration tree.
#[derive(Debug, PartialEq, Eq)]
pub enum ConfigurationValue {
    Null,
    Bool(bool),
    /// The bit pattern of a binary64 number.
    Number(u64),
    Text(String),
    Array(Vec<ConfigurationValue>),
    /// Key and value pairs, in the order in which the document lists them.
    Object(Vec<(String, ConfigurationValue)>),
}

/// How a string value is written out by the style language.
#[derive(Clone, Copy, Debug, PartialEq, Eq, Structural)]
pub enum QuoteKind {
    Quoted,
    Unquoted,
}

/// What separates the elements of a list value.
#[derive(Clone, Copy, Debug, PartialEq, Eq, Structural)]
pub enum ListSeparator {
    Space,
    Comma,
}

/// Whether a list value is written inside square brackets.
#[derive(Clone, Copy, Debug, PartialEq, Eq, Structural)]
pub enum Brackets {
    Unbracketed,
    Bracketed,
}

/// A value of the style language.
#[derive(Debug, PartialEq, Eq)]
pub enum BridgedValue {
    Null,
    Bool(bool),
    /// A number without a unit, as the bit pattern of a binary64 number.
    Number(u64),
    Text(String, QuoteKind),
    List(Vec<BridgedValue>, ListSeparator, Brackets),
    /// Key and value pairs, in order.
    Mapping(Vec<(BridgedValue, BridgedValue)>),
}

/// The mathematical content of a [`ConfigurationValue`].
pub enum ConfigModel {
    Null,
    Bool(bool),
    Number(u64),
    Text(Seq<char>),
    Array(Seq<ConfigModel>),
    Object(Seq<(Seq<char>, ConfigModel)>),
}

/// The mathematical content of a [`BridgedValue`].
pub enum BridgedModel {
    Null,
    Bool(bool),
    Number(u64),
    Text(Seq<char>, QuoteKind),
    List(Seq<BridgedModel>, ListSeparator, Brackets),
    Mapping(Seq<(BridgedModel, BridgedModel)>),
}

/// The content of a configuration tree: the same shape, with sequences for
/// vectors and strings.
pub open spec fn config_model(v: ConfigurationValue) -> ConfigModel
    decreases v,
{
    match v {
        ConfigurationValue::Null => ConfigModel::Null,
        ConfigurationValue::Bool(b) => ConfigModel::Bool(b),
        ConfigurationValue::Number(bits) => ConfigModel::Number(bits),
        ConfigurationValue::Text(s) => ConfigModel::Text(s@),
        ConfigurationValue::Array(items) => ConfigModel::Array(
            Seq::new(
                items@.len(),
                |i: int|
                    if 0 <= i < items@.len() {
                        config_model(items@[i])
                    } else {
                        ConfigModel::Null
                    },
            ),
        ),
        ConfigurationValue::Object(entries) => ConfigModel::Object(
            Seq::new(
                entries@.len(),
                |i: int|
                    if 0 <= i < entries@.len() {
                        (entries@[i].0@, config_model(entries@[i].1))
                    } else {
                        (Seq::empty(), ConfigModel::Null)
                    },
            ),
        ),
    }
}

/// The content of a value of the style language.
pub open spec fn bridged_model(v: BridgedValue) -> BridgedModel
    decreases v,
{
    match v {
        BridgedValue::Null => BridgedModel::Null,
        BridgedValue::Bool(b) => BridgedModel::Bool(b),
        BridgedValue::Number(bits) => BridgedModel::Number(bits),
        BridgedValue::Text(s, quotes) => BridgedModel::Text(s@, quotes),
        BridgedValue::List(items, separator, brackets) => BridgedModel::List(
            Seq::new(
                items@.len(),
                |i: int|
                    if 0 <= i < items@.len() {
                        bridged_model(items@[i])
                    } else {
                        BridgedModel::Null
                    },
            ),
            separator,
            brackets,
        ),
        BridgedValue::Mapping(entries) => BridgedModel::Mapping(
            Seq::new(
                entries@.len(),
                |i: int|
                    if 0 <= i < entries@.len() {
                        (bridged_model(entries@[i].0), bridged_model(entries@[i].1))
                    } else {
                        (BridgedModel::Null, BridgedModel::Null)
                    },
            ),
        ),
    }
}

impl View for ConfigurationValue {
    type V = ConfigModel;

    open spec fn view(&self) -> ConfigModel {
        config_model(*self)
    }
}

impl View for BridgedValue {
    type V = BridgedModel;

    open spec fn view(&self) -> BridgedModel {
        bridged_model(*self)
    }
}

/// Whether a bit pattern stands for a number the style language can hold:
/// a finite one. The patterns whose exponent field is all ones are the
/// infinities and the NaNs.
pub open spec fn is_representable(bits: u64) -> bool {
    (bits >> 52) & 0x7ff != 0x7ff
}

/// The value of the style language that stands for a configuration tree.
///
/// Text becomes a quoted string, a boolean stays one, a representable number
/// becomes a unitless number, an array becomes a bracketed, comma separated
/// list of its bridged elements in the same order, and an object becomes a map
/// with its keys as quoted strings and its values bridged, in the same order.
/// Everything else is null.
pub open spec fn bridge(m: ConfigModel) -> BridgedModel
    decreases m,
{
    match m {
        ConfigModel::Null => BridgedModel::Null,
        ConfigModel::Bool(b) => BridgedModel::Bool(b),
        ConfigModel::Number(bits) => if is_representable(bits) {
            BridgedModel::Number(bits)
        } else {
            BridgedModel::Null
        },
        ConfigModel::Text(s) => BridgedModel::Text(s, QuoteKind::Quoted),
        ConfigModel::Array(items) => BridgedModel::List(
            Seq::new(
                items.len(),
                |i: int|
                    if 0 <= i < items.len() {
                        bridge(items[i])
                    } else {
                        BridgedModel::Null
                    },
            ),
            ListSeparator::Comma,
            Brackets::Bracketed,
        ),
        ConfigModel::Object(entries) => BridgedModel::Mapping(
            Seq::new(
                entries.len(),
                |i: int|
                    if 0 <= i < entries.len() {
                        (BridgedModel::Text(entries[i].0, QuoteKind::Quoted), bridge(entries[i].1))
                    } else {
                        (BridgedModel::Null, BridgedModel::Null)
                    },
            ),
        ),
    }
}

impl Clone for ConfigurationValue {
    fn clone(&self) -> (copy: ConfigurationValue)
        ensures
            copy@ == self@,
        decreases self,
    {
        match self {
            ConfigurationValue::Null => ConfigurationValue::Null,
            ConfigurationValue::Bool(x) => ConfigurationValue::Bool(*x),
            ConfigurationValue::Number(x) => ConfigurationValue::Number(*x),
            ConfigurationValue::Text(x) => ConfigurationValue::Text(x.clone()),
            ConfigurationValue::Array(x) => {
                let mut items: Vec<ConfigurationValue> = Vec::new();
                let mut i: usize = 0;
                while i < x.len()
                    invariant
                        i <= x.len(),
                        items@.len() == i,
                        self == ConfigurationValue::Array(*x),
                        forall|k: int| 0 <= k < i ==> (#[trigger] items@[k])@ == x@[k]@,
                    decreases x.len() - i,
                {
                    assert(decreases_to!(*self => self->Array_0));
                    let item = x[i].clone();
                    items.push(item);
                    i += 1;
                }
                let copy = ConfigurationValue::Array(items);
                assert(copy@->Array_0 =~= self@->Array_0);
                copy
            },
            ConfigurationValue::Object(m) => {
                let mut entries: Vec<(String, ConfigurationValue)> = Vec::new();
                let mut i: usize = 0;
                while i < m.len()
                    invariant
                        i <= m.len(),
                        entries@.len() == i,
                        self == ConfigurationValue::Object(*m),
                        forall|k: int|
                            0 <= k < i ==> (#[trigger] entries@[k]).0@ == m@[k].0@
                                && entries@[k].1@ == m@[k].1@,
                    decreases m.len() - i,
                {
                    let key = m[i].0.clone();
                    assert(decreases_to!(*self => self->Object_0));
                    let item = m[i].1.clone();
                    entries.push((key, item));
                    i += 1;
                }
                let copy = ConfigurationValue::Object(entries);
                assert(copy@->Object_0 =~= self@->Object_0);
                copy
            },
        }
    }
}

/// Tells whether a number can be handed to the style language.
pub fn number_is_representable(bits: u64) -> (representable: bool)
    ensures
        representable == is_representable(bits),
{
    (bits >> 52) & 0x7ff != 0x7ff
}

/// Converts a configuration tree into the value model of the style language.
pub fn map_value(j: &ConfigurationValue) -> (value: BridgedValue)
    ensures
        value@ == bridge(j@),
    decreases j,
{
    match j {
        ConfigurationValue::Text(x) => BridgedValue::Text(x.clone(), QuoteKind::Quoted),
        ConfigurationValue::Bool(x) => BridgedValue::Bool(*x),
        ConfigurationValue::Number(x) => {
            if number_is_representable(*x) {
                BridgedValue::Number(*x)
            } else {
                BridgedValue::Null
            }
        },
        ConfigurationValue::Array(x) => {
            let mut items: Vec<BridgedValue> = Vec::new();
            let mut i: usize = 0;
            while i < x.len()
                invariant
                    i <= x.len(),
                    items@.len() == i,
                    j == ConfigurationValue::Array(*x),
                    forall|k: int| 0 <= k < i ==> (#[trigger] items@[k])@ == bridge(x@[k]@),
                decreases x.len() - i,
            {
                assert(decreases_to!(*j => j->Array_0));
                let item = map_value(&x[i]);
                items.push(item);
                i += 1;
            }
            let value = BridgedValue::List(items, ListSeparator::Comma, Brackets::Bracketed);
            assert(value@->List_0 =~= bridge(j@)->List_0);
            value
        },
        ConfigurationValue::Object(m) => {
            let mut entries: Vec<(BridgedValue, BridgedValue)> = Vec::new();
            let mut i: usize = 0;
            while i < m.len()
                invariant
                    i <= m.len(),
                    entries@.len() == i,
                    j == ConfigurationValue::Object(*m),
                    forall|k: int|
                        0 <= k < i ==> (#[trigger] entries@[k]).0@ == BridgedModel::Text(
                            m@[k].0@,
                            QuoteKind::Quoted,
                        ) && entries@[k].1@ == bridge(m@[k].1@),
                decreases m.len() - i,
            {
                let key = BridgedValue::Text(m[i].0.clone(), QuoteKind::Quoted);
                assert(decreases_to!(*j => j->Object_0));
                let item = map_value(&m[i].1);
                entries.push((key, item));
                i += 1;
            }
            let value = BridgedValue::Mapping(entries);
            assert(value@->Mapping_0 =~= bridge(j@)->Mapping_0);
            value
        },
        ConfigurationValue::Null => BridgedValue::Null,
    }
}

/// Whether a configuration tree holds a null anywhere.
pub open spec fn contains_null(m: ConfigModel) -> bool
    decreases m,
{
    match m {
        ConfigModel::Null => true,
        ConfigModel::Array(items) => exists|i: int|
            0 <= i < items.len() && contains_null(#[trigger] items[i]),
        ConfigModel::Object(entries) => exists|i: int|
            0 <= i < entries.len() && contains_null((#[trigger] entries[i]).1),
        _ => false,
    }
}

/// Whether a configuration tree holds, anywhere, a number that the style
/// language cannot hold.
pub open spec fn contains_unrepresentable(m: ConfigModel) -> bool
    decreases m,
{
    match m {
        ConfigModel::Number(bits) => !is_representable(bits),
        ConfigModel::Array(items) => exists|i: int|
            0 <= i < items.len() && contains_unrepresentable(#[trigger] items[i]),
        ConfigModel::Object(entries) => exists|i: int|
            0 <= i < entries.len() && contains_unrepresentable((#[trigger] entries[i]).1),
        _ => false,
    }
}

/// Whether a value of the style language holds a null anywhere: itself, an
/// element of a list, or a key or a value of a map.
pub open spec fn bridged_contains_null(b: BridgedModel) -> bool
    decreases b,
{
    match b {
        BridgedModel::Null => true,
        BridgedModel::List(items, _, _) => exists|i: int|
            0 <= i < items.len() && bridged_contains_null(#[trigger] items[i]),
        BridgedModel::Mapping(entries) => exists|i: int|
            0 <= i < entries.len() && (bridged_contains_null((#[trigger] entries[i]).0)
                || bridged_contains_null(entries[i].1)),
        _ => false,
    }
}

/// The configuration tree that a value of the style language stands for.
/// A key of a map that is no string reads as the empty string.
pub open spec fn recover(b: BridgedModel) -> ConfigModel
    decreases b,
{
    match b {
        BridgedModel::Null => ConfigModel::Null,
        BridgedModel::Bool(x) => ConfigModel::Bool(x),
        BridgedModel::Number(bits) => ConfigModel::Number(bits),
        BridgedModel::Text(s, _) => ConfigModel::Text(s),
        BridgedModel::List(items, _, _) => ConfigModel::Array(
            Seq::new(
                items.len(),
                |i: int|
                    if 0 <= i < items.len() {
                        recover(items[i])
                    } else {
                        ConfigModel::Null
                    },
            ),
        ),
        BridgedModel::Mapping(entries) => ConfigModel::Object(
            Seq::new(
                entries.len(),
                |i: int|
                    if 0 <= i < entries.len() {
                        (
                            match entries[i].0 {
                                BridgedModel::Text(key, _) => key,
                                _ => Seq::empty(),
                            },
                            recover(entries[i].1),
                        )
                    } else {
                        (Seq::empty(), ConfigModel::Null)
                    },
            ),
        ),
    }
}

/// The bridged value is null exactly where the source is null or is a number
/// that cannot be represented.
pub proof fn bridge_is_null_only_for_null_sources(m: ConfigModel)
    ensures
        bridge(m) is Null <==> (m is Null || (m is Number && !is_representable(m->Number_0))),
{
}

/// A null occurs somewhere in the bridged value exactly when the source holds,
/// somewhere, a null or a number that cannot be represented. In particular a
/// tree whose numbers are all representable gains no null by being bridged.
pub proof fn bridge_adds_no_null(m: ConfigModel)
    ensures
        bridged_contains_null(bridge(m)) <==> (contains_null(m) || contains_unrepresentable(m)),
        !contains_unrepresentable(m) ==> (bridged_contains_null(bridge(m)) <==> contains_null(m)),
    decreases m,
{
    match m {
        ConfigModel::Array(items) => {
            let bridged = bridge(m)->List_0;
            assert forall|i: int| 0 <= i < items.len() implies (bridged_contains_null(
                #[trigger] bridged[i],
            ) <==> (contains_null(items[i]) || contains_unrepresentable(items[i]))) by {
                bridge_adds_no_null(items[i]);
            }
            if bridged_contains_null(bridge(m)) {
                let i = choose|i: int|
                    0 <= i < bridged.len() && bridged_contains_null(#[trigger] bridged[i]);
            }
            if contains_null(m) {
                let i = choose|i: int| 0 <= i < items.len() && contains_null(#[trigger] items[i]);
                assert(bridged_contains_null(bridged[i]));
            }
            if contains_unrepresentable(m) {
                let i = choose|i: int|
                    0 <= i < items.len() && contains_unrepresentable(#[trigger] items[i]);
                assert(bridged_contains_null(bridged[i]));
            }
        },
        ConfigModel::Object(entries) => {
            let bridged = bridge(m)->Mapping_0;
            assert forall|i: int| 0 <= i < entries.len() implies (bridged_contains_null(
                (#[trigger] bridged[i]).1,
            ) <==> (contains_null(entries[i].1) || contains_unrepresentable(entries[i].1)))
                && !bridged_contains_null(bridged[i].0) by {
                bridge_adds_no_null(entries[i].1);
            }
            if bridged_contains_null(bridge(m)) {
                let i = choose|i: int|
                    0 <= i < bridged.len() && (bridged_contains_null((#[trigger] bridged[i]).0)
                        || bridged_contains_null(bridged[i].1));
            }
            if contains_null(m) {
                let i = choose|i: int|
                    0 <= i < entries.len() && contains_null((#[trigger] entries[i]).1);
                assert(bridged_contains_null(bridged[i].1));
            }
            if contains_unrepresentable(m) {
                let i = choose|i: int|
                    0 <= i < entries.len() && contains_unrepresentable((#[trigger] entries[i]).1);
                assert(bridged_contains_null(bridged[i].1));
            }
        },
        _ => {},
    }
}

/// Bridging loses nothing: a tree whose numbers are all representable can be
/// read back from its bridged value, node for node and in the same order.
pub proof fn bridge_is_lossless(m: ConfigModel)
    requires
        !contains_unrepresentable(m),
    ensures
        recover(bridge(m)) == m,
    decreases m,
{
    match m {
        ConfigModel::Array(items) => {
            let back = recover(bridge(m))->Array_0;
            assert forall|i: int| 0 <= i < items.len() implies back[i] == items[i] by {
                bridge_is_lossless(items[i]);
            }
            assert(back =~= items);
        },
        ConfigModel::Object(entries) => {
            let back = recover(bridge(m))->Object_0;
            assert forall|i: int| 0 <= i < entries.len() implies back[i] == entries[i] by {
                bridge_is_lossless(entries[i].1);
            }
            assert(back =~= entries);
        },
        _ => {},
    }
}

} // verus!
