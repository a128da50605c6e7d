use site_sass::collision::entry_precedes;
use site_sass::{validate, CompiledOutput, OutputCollision, SassPath};

fn names(list: &[&str]) -> SassPath {
    SassPath { segments: list.iter().map(|name| name.to_string()).collect() }
}

fn record(source: &[&str], output: &[&str]) -> CompiledOutput {
    CompiledOutput { source: names(source), output: names(output) }
}

fn collision(first: &[&str], second: &[&str], output: &[&str]) -> OutputCollision {
    OutputCollision { first: names(first), second: names(second), output: names(output) }
}

#[test]
fn two_sources_with_one_output_collide() {
    let outputs = vec![
        record(&["x", "a.scss"], &["public", "a.css"]),
        record(&["y", "a.scss"], &["public", "a.css"]),
    ];
    assert_eq!(
        validate(&outputs),
        Err(collision(&["x", "a.scss"], &["y", "a.scss"], &["public", "a.css"]))
    );
}

#[test]
fn the_report_names_both_sources_and_the_output() {
    let outputs = vec![
        record(&["x", "a.scss"], &["public", "a.css"]),
        record(&["y", "a.scss"], &["public", "a.css"]),
    ];
    let error = validate(&outputs).unwrap_err();
    assert_eq!(
        error.message(),
        "SASS path conflict: \"x/a.scss\" and \"y/a.scss\" both compile to \"public/a.css\""
    );
}

#[test]
fn a_sass_and_a_scss_file_of_one_name_collide() {
    let outputs = vec![
        record(&["blog.scss"], &["public", "blog.css"]),
        record(&["main.scss"], &["public", "main.css"]),
        record(&["blog.sass"], &["public", "blog.css"]),
    ];
    assert_eq!(
        validate(&outputs),
        Err(collision(&["blog.sass"], &["blog.scss"], &["public", "blog.css"]))
    );
}

#[test]
fn different_outputs_pass() {
    let outputs = vec![
        record(&["a.scss"], &["public", "a.css"]),
        record(&["b.scss"], &["public", "b.css"]),
        record(&["x", "a.scss"], &["public", "x", "a.css"]),
    ];
    assert_eq!(validate(&outputs), Ok(()));
}

#[test]
fn no_record_and_one_record_pass() {
    assert_eq!(validate(&vec![]), Ok(()));
    assert_eq!(validate(&vec![record(&["a.scss"], &["public", "a.css"])]), Ok(()));
}

#[test]
fn a_collision_is_found_though_sources_between_sort_apart() {
    // Sorted by source, `a.sassy.scss` stands between the two that collide.
    let outputs = vec![
        record(&["a.sass"], &["public", "a.css"]),
        record(&["a.sassy.scss"], &["public", "a.sassy.css"]),
        record(&["a.scss"], &["public", "a.css"]),
    ];
    assert_eq!(validate(&outputs), Err(collision(&["a.sass"], &["a.scss"], &["public", "a.css"])));
}

#[test]
fn the_report_does_not_depend_on_the_order_of_the_records() {
    let records = [
        record(&["y", "a.scss"], &["public", "a.css"]),
        record(&["b.scss"], &["public", "b.css"]),
        record(&["x", "a.scss"], &["public", "a.css"]),
        record(&["c.sass"], &["public", "c.css"]),
    ];
    let expected = Err(collision(&["x", "a.scss"], &["y", "a.scss"], &["public", "a.css"]));
    let orders: [[usize; 4]; 6] =
        [[0, 1, 2, 3], [3, 2, 1, 0], [2, 0, 3, 1], [1, 3, 0, 2], [2, 3, 0, 1], [0, 2, 1, 3]];
    for order in orders {
        let outputs: Vec<CompiledOutput> =
            order.iter().map(|&at| record_copy(&records[at])).collect();
        assert_eq!(validate(&outputs), expected);
    }
}

fn record_copy(record: &CompiledOutput) -> CompiledOutput {
    CompiledOutput { source: record.source.clone(), output: record.output.clone() }
}

#[test]
fn of_several_collisions_the_least_output_is_reported() {
    let outputs = vec![
        record(&["z.scss"], &["public", "z.css"]),
        record(&["m.sass"], &["public", "m.css"]),
        record(&["z.sass"], &["public", "z.css"]),
        record(&["m.scss"], &["public", "m.css"]),
    ];
    assert_eq!(validate(&outputs), Err(collision(&["m.sass"], &["m.scss"], &["public", "m.css"])));
}

#[test]
fn of_three_sources_the_two_least_are_reported() {
    let outputs = vec![
        record(&["c"], &["out.css"]),
        record(&["a"], &["out.css"]),
        record(&["b"], &["out.css"]),
    ];
    assert_eq!(validate(&outputs), Err(collision(&["a"], &["b"], &["out.css"])));
}

#[test]
fn the_same_record_twice_collides_with_itself() {
    let outputs = vec![record(&["a.scss"], &["a.css"]), record(&["a.scss"], &["a.css"])];
    assert_eq!(validate(&outputs), Err(collision(&["a.scss"], &["a.scss"], &["a.css"])));
}

#[test]
fn the_same_source_with_two_outputs_passes() {
    let outputs = vec![record(&["a.scss"], &["one", "a.css"]), record(&["a.scss"], &["two", "a.css"])];
    assert_eq!(validate(&outputs), Ok(()));
}

#[test]
fn the_order_of_records_puts_the_output_first() {
    assert!(entry_precedes(&record(&["z"], &["a"]), &record(&["a"], &["b"])));
    assert!(!entry_precedes(&record(&["a"], &["b"]), &record(&["z"], &["a"])));
    assert!(entry_precedes(&record(&["a"], &["x"]), &record(&["b"], &["x"])));
    assert!(!entry_precedes(&record(&["b"], &["x"]), &record(&["a"], &["x"])));
    assert!(entry_precedes(&record(&["a"], &["x"]), &record(&["a"], &["x"])));
}

#[test]
fn many_records_are_checked_in_one_pass() {
    let mut outputs: Vec<CompiledOutput> = (0..200)
        .map(|n| record(&[&format!("s{}.scss", (n * 37) % 200)], &["public", &format!("s{}.css", (n * 37) % 200)]))
        .collect();
    assert_eq!(validate(&outputs), Ok(()));
    outputs.push(record(&["s150.sass"], &["public", "s150.css"]));
    outputs.push(record(&["s020.sass"], &["public", "s20.css"]));
    assert_eq!(
        validate(&outputs),
        Err(collision(&["s150.sass"], &["s150.scss"], &["public", "s150.css"]))
    );
}
