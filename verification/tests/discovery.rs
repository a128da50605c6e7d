use site_sass::discovery::{has_stylesheet_extension, is_compiled};
use site_sass::{get_non_partial_scss, is_partial_scss, SassPath, WalkEntry};

fn path(names: &[&str]) -> SassPath {
    SassPath { segments: names.iter().map(|name| name.to_string()).collect() }
}

fn file(names: &[&str]) -> WalkEntry {
    WalkEntry { path: path(names), is_file: true }
}

fn dir(names: &[&str]) -> WalkEntry {
    WalkEntry { path: path(names), is_file: false }
}

/// What a walk of the directory `root` reports: the root, then the entries
/// below it. A name that ends in `/` stands for a directory.
fn walk(root: &[&str], below: &[&[&str]]) -> Vec<WalkEntry> {
    let mut entries = vec![dir(root)];
    for inside in below {
        let mut names = root.to_vec();
        names.extend_from_slice(inside);
        let last = names.pop().unwrap();
        match last.strip_suffix('/') {
            Some(name) => {
                names.push(name);
                entries.push(dir(&names));
            }
            None => {
                names.push(last);
                entries.push(file(&names));
            }
        }
    }
    entries
}

fn file_names(files: &[SassPath]) -> Vec<String> {
    files.iter().filter_map(|file| file.file_name().cloned()).collect()
}

#[test]
fn test_get_non_partial_scss() {
    let root = ["test_site", "sass"];
    let entries = walk(
        &root,
        &[
            &["_partial.scss"],
            &["blog.scss"],
            &["nested_sass/"],
            &["nested_sass", "sass.sass"],
            &["nested_sass", "scss.scss"],
            &["sass.sass"],
            &["scss.scss"],
        ],
    );

    let result = get_non_partial_scss(&path(&root), &entries);

    assert!(!result.is_empty());
    assert!(result.iter().filter_map(|path| path.file_name()).any(|file| file == "scss.scss"))
}

#[test]
fn test_get_non_partial_scss_underscores() {
    let root = ["test_site", "_dir_with_underscores", "..", "sass"];
    let entries = walk(
        &root,
        &[
            &["_partial.scss"],
            &["blog.scss"],
            &["nested_sass/"],
            &["nested_sass", "sass.sass"],
            &["nested_sass", "scss.scss"],
            &["sass.sass"],
            &["scss.scss"],
        ],
    );

    let result = get_non_partial_scss(&path(&root), &entries);

    assert!(!result.is_empty());
    assert!(result.iter().filter_map(|path| path.file_name()).any(|file| file == "scss.scss"))
}

#[test]
fn partial_files_and_partial_directories_are_left_out() {
    let root = ["site", "sass"];
    let entries =
        walk(&root, &[&["a.scss"], &["_partial.scss"], &["_hidden/"], &["_hidden", "b.scss"]]);
    let result = get_non_partial_scss(&path(&root), &entries);
    assert_eq!(result, vec![path(&["site", "sass", "a.scss"])]);
}

#[test]
fn a_walk_that_found_nothing_gives_nothing() {
    let result = get_non_partial_scss(&path(&["site", "sass"]), &vec![]);
    assert_eq!(result, Vec::<SassPath>::new());
}

#[test]
fn a_directory_named_like_a_stylesheet_is_not_compiled() {
    let root = ["site", "sass"];
    let entries = walk(&root, &[&["a.scss/"], &["a.scss", "b.scss"], &["theme.sass/"]]);
    let result = get_non_partial_scss(&path(&root), &entries);
    assert_eq!(result, vec![path(&["site", "sass", "a.scss", "b.scss"])]);
}

#[test]
fn a_root_named_like_a_stylesheet_is_not_returned() {
    let root = ["site", "x.scss"];
    let entries = walk(&root, &[&["notes.txt"]]);
    assert_eq!(get_non_partial_scss(&path(&root), &entries), Vec::<SassPath>::new());
    let entries = walk(&root, &[&["notes.txt"], &["a.scss"]]);
    assert_eq!(
        get_non_partial_scss(&path(&root), &entries),
        vec![path(&["site", "x.scss", "a.scss"])]
    );
}

#[test]
fn a_root_that_is_a_file_is_not_returned() {
    let entries = vec![file(&["site", "x.scss"])];
    assert_eq!(get_non_partial_scss(&path(&["site", "x.scss"]), &entries), Vec::<SassPath>::new());
}

#[test]
fn every_result_has_something_left_below_the_root() {
    let root = ["site", "main.sass"];
    let entries = walk(&root, &[&["a.scss"], &["x/"], &["x", "b.sass"], &["x.scss/"]]);
    let result = get_non_partial_scss(&path(&root), &entries);
    assert_eq!(result.len(), 2);
    for found in &result {
        let inside = found.strip_prefix(&path(&root)).unwrap();
        assert!(!inside.segments.is_empty());
    }
}

#[test]
fn a_partial_directory_hides_everything_below_it() {
    let root = ["sass"];
    let entries = walk(
        &root,
        &[
            &["sub/"],
            &["sub", "_inner/"],
            &["sub", "_inner", "c.scss"],
            &["sub", "_inner", "deep/"],
            &["sub", "_inner", "deep", "e.sass"],
            &["sub", "d.sass"],
        ],
    );
    let result = get_non_partial_scss(&path(&root), &entries);
    assert_eq!(result, vec![path(&["sass", "sub", "d.sass"])]);
}

#[test]
fn a_partial_file_in_a_plain_directory_is_left_out() {
    let root = ["sass"];
    let entries = walk(&root, &[&["sub/"], &["sub", "_mixins.scss"], &["sub", "page.scss"]]);
    let result = get_non_partial_scss(&path(&root), &entries);
    assert_eq!(result, vec![path(&["sass", "sub", "page.scss"])]);
}

#[test]
fn only_the_two_stylesheet_extensions_are_compiled() {
    let root = ["sass"];
    let entries = walk(
        &root,
        &[
            &["a.scss"],
            &["b.sass"],
            &["c.css"],
            &["d.txt"],
            &["scss"],
            &["e.scss.bak"],
            &["f.SCSS"],
            &["g.less"],
        ],
    );
    let result = get_non_partial_scss(&path(&root), &entries);
    assert_eq!(file_names(&result), vec!["a.scss".to_string(), "b.sass".to_string()]);
}

#[test]
fn the_order_of_the_walk_is_kept() {
    let root = ["sass"];
    let entries = walk(&root, &[&["z.scss"], &["a.scss"], &["m/"], &["m", "k.sass"], &["b.scss"]]);
    let result = get_non_partial_scss(&path(&root), &entries);
    assert_eq!(
        file_names(&result),
        vec!["z.scss".to_string(), "a.scss".to_string(), "k.sass".to_string(), "b.scss".to_string()]
    );
}

#[test]
fn underscores_above_the_root_do_not_count() {
    let root = ["_drafts", "site", "sass"];
    let entries = walk(&root, &[&["a.scss"]]);
    let result = get_non_partial_scss(&path(&root), &entries);
    assert_eq!(result, vec![path(&["_drafts", "site", "sass", "a.scss"])]);
}

#[test]
fn an_underscore_in_the_name_of_the_root_does_not_count() {
    let root = ["site", "_sass"];
    let entries = walk(&root, &[&["a.scss"], &["_p.scss"], &["sub/"], &["sub", "b.sass"]]);
    let result = get_non_partial_scss(&path(&root), &entries);
    assert_eq!(
        result,
        vec![path(&["site", "_sass", "a.scss"]), path(&["site", "_sass", "sub", "b.sass"])]
    );
}

#[test]
fn an_entry_outside_the_root_is_left_out() {
    let entries =
        vec![file(&["elsewhere", "a.scss"]), dir(&["site"]), file(&["site", "sass", "b.scss"])];
    let result = get_non_partial_scss(&path(&["site", "sass"]), &entries);
    assert_eq!(result, vec![path(&["site", "sass", "b.scss"])]);
}

#[test]
fn an_underscore_inside_a_name_marks_no_partial() {
    let root = ["sass"];
    let entries = walk(
        &root,
        &[&["my_file.scss"], &["dir_with_underscores/"], &["dir_with_underscores", "x_.sass"]],
    );
    let result = get_non_partial_scss(&path(&root), &entries);
    assert_eq!(file_names(&result), vec!["my_file.scss".to_string(), "x_.sass".to_string()]);
}

#[test]
fn no_path_is_returned_twice() {
    let root = ["sass"];
    let entries = walk(&root, &[&["a.scss"], &["b.sass"], &["x/"], &["x", "a.scss"]]);
    let result = get_non_partial_scss(&path(&root), &entries);
    for (i, one) in result.iter().enumerate() {
        for (j, other) in result.iter().enumerate() {
            assert_eq!(one == other, i == j);
        }
    }
    assert_eq!(result.len(), 3);
}

#[test]
fn partial_names_begin_with_an_underscore() {
    assert!(is_partial_scss("_partial.scss"));
    assert!(is_partial_scss("_hidden"));
    assert!(is_partial_scss("_"));
    assert!(is_partial_scss("__x"));
    assert!(!is_partial_scss("a.scss"));
    assert!(!is_partial_scss("a_b.scss"));
    assert!(!is_partial_scss("a_"));
    assert!(!is_partial_scss(""));
    assert!(!is_partial_scss("é_"));
}

#[test]
fn stylesheet_names_end_in_sass_or_scss() {
    assert!(has_stylesheet_extension("a.scss"));
    assert!(has_stylesheet_extension("a.sass"));
    assert!(has_stylesheet_extension("a.b.scss"));
    assert!(has_stylesheet_extension(".scss"));
    assert!(has_stylesheet_extension("_partial.scss"));
    assert!(has_stylesheet_extension("été.sass"));
    assert!(has_stylesheet_extension("two\nlines.scss"));
    assert!(!has_stylesheet_extension("a.css"));
    assert!(!has_stylesheet_extension("scss"));
    assert!(!has_stylesheet_extension("sass"));
    assert!(!has_stylesheet_extension("a.scss.bak"));
    assert!(!has_stylesheet_extension("a.SCSS"));
    assert!(!has_stylesheet_extension("a.scss "));
    assert!(!has_stylesheet_extension("a.scss\n"));
    assert!(!has_stylesheet_extension("ascss"));
    assert!(!has_stylesheet_extension(""));
    assert!(!has_stylesheet_extension("*.{sass,scss}"));
}

#[test]
fn an_entry_is_compiled_when_every_rule_lets_it() {
    let root = path(&["site", "sass"]);
    assert!(is_compiled(&root, &file(&["site", "sass", "a.scss"])));
    assert!(is_compiled(&root, &file(&["site", "sass", "x", "y", "a.sass"])));
    assert!(!is_compiled(&root, &dir(&["site", "sass", "a.scss"])));
    assert!(!is_compiled(&root, &file(&["site", "sass", "_a.scss"])));
    assert!(!is_compiled(&root, &file(&["site", "sass", "_x", "a.scss"])));
    assert!(!is_compiled(&root, &file(&["site", "sass", "a.css"])));
    assert!(!is_compiled(&root, &dir(&["site", "sass"])));
    assert!(!is_compiled(&root, &file(&["site", "sass"])));
    assert!(!is_compiled(&root, &file(&["site", "a.scss"])));
    assert!(!is_compiled(&root, &file(&[])));
    assert!(is_compiled(&path(&[]), &file(&["a.scss"])));
    assert!(!is_compiled(&path(&[]), &file(&["_x", "a.scss"])));
    assert!(!is_compiled(&path(&["x.scss"]), &file(&["x.scss"])));
    assert!(!is_compiled(&path(&["x.scss"]), &dir(&["x.scss"])));
    assert!(is_compiled(&path(&["_x.scss"]), &file(&["_x.scss", "a.scss"])));
}

#[test]
fn a_walk_that_skips_partial_directories_finds_the_same_files() {
    let root = ["site", "sass"];
    let all = walk(
        &root,
        &[
            &["a.scss"],
            &["_partial.scss"],
            &["_hidden/"],
            &["_hidden", "b.scss"],
            &["_hidden", "deep/"],
            &["_hidden", "deep", "c.sass"],
            &["x/"],
            &["x", "d.sass"],
            &["x", "_y/"],
            &["x", "_y", "e.scss"],
        ],
    );
    let pruned = walk(&root, &[&["a.scss"], &["x/"], &["x", "d.sass"]]);
    let expected = vec![path(&["site", "sass", "a.scss"]), path(&["site", "sass", "x", "d.sass"])];
    assert_eq!(get_non_partial_scss(&path(&root), &all), expected);
    assert_eq!(get_non_partial_scss(&path(&root), &pruned), expected);
}

#[test]
fn a_name_matches_exactly_when_it_ends_in_one_of_the_two_extensions() {
    let alphabet = ['.', 's', 'a', 'c', '/', 'é'];
    let mut names: Vec<String> = vec![String::new()];
    let mut longest: Vec<String> = vec![String::new()];
    for _ in 0..3 {
        let mut next = Vec::new();
        for name in &longest {
            for c in alphabet {
                let mut longer = name.clone();
                longer.push(c);
                next.push(longer);
            }
        }
        names.extend(next.iter().cloned());
        longest = next;
    }
    for stem in &names {
        for ending in ["", ".scss", ".sass", ".scs", "scss", ".Sass", ".scss/", ".sass\n", ".css"] {
            let name = format!("{}{}", stem, ending);
            let expected = name.ends_with(".sass") || name.ends_with(".scss");
            assert_eq!(has_stylesheet_extension(&name), expected, "{:?}", name);
        }
    }
}
