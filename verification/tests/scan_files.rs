use ambiguous_assignment::scan::scan_source;

fn scan(text: &str, name: &str) -> String {
    let out = scan_source(&text.as_bytes().to_vec(), name.as_bytes().to_vec());
    String::from_utf8(out).unwrap()
}

#[test]
fn scan_flags_ambiguous_assignment() {
    assert_eq!(
        scan("y = 1\nx =- y\n", "a.rb"),
        "warning: ambiguous assignment\n  --> a.rb:2:4\n\nx =- y\n   ^\n",
    );
}

#[test]
fn scan_accepts_no_space_anywhere() {
    assert_eq!(scan("y = 1\nx =-y\n", "a.rb"), "");
    assert_eq!(scan("y = 1\nx=-y\n", "a.rb"), "");
}

#[test]
fn scan_accepts_space_before_minus() {
    // A gap between `=` and `-` fails the adjacency condition, whatever the
    // spacing after the operator.
    assert_eq!(scan("y = 1\nx = -y\n", "b.rb"), "");
    assert_eq!(scan("y = 1\nx = - y\n", "b.rb"), "");
}

#[test]
fn scan_accepts_other_right_hand_sides() {
    assert_eq!(scan("y = 1\nx = y - 1\n", "c.rb"), "");
    assert_eq!(scan("y = 1\nx =- 5\n", "c.rb"), "");
    assert_eq!(scan("y = 1\nx =- y.abs\n", "c.rb"), "");
}

#[test]
fn scan_skips_unparseable_source() {
    assert_eq!(scan("y = 1\nx =- (\n", "broken.rb"), "");
}

#[test]
fn scan_is_idempotent() {
    let text = "y = 1\nz = 2\na =- y\nb =- z\n";
    let first = scan(text, "m.rb");
    let second = scan(text, "m.rb");
    assert_eq!(first, second);
}

#[test]
fn scan_reports_every_finding_in_order() {
    assert_eq!(
        scan("y = 1\nz = 2\na =- y\nb =- z\n", "m.rb"),
        "warning: ambiguous assignment\n  --> m.rb:3:4\n\na =- y\n   ^\n\
         warning: ambiguous assignment\n  --> m.rb:4:4\n\nb =- z\n   ^\n",
    );
}

#[test]
fn scan_flags_file_without_trailing_newline() {
    assert_eq!(
        scan("y = 1\nx =- y", "e.rb"),
        "warning: ambiguous assignment\n  --> e.rb:2:4\n\nx =- y\n   ^\n",
    );
}

#[test]
fn scan_ignores_single_statement_file() {
    // A file holding one bare statement has no multi-statement body to walk:
    // the documented limitation of the rule.
    assert_eq!(scan("x =- y\n", "one.rb"), "");
}

#[test]
fn scan_ignores_nested_bodies() {
    // Only top-level statements are inspected.
    assert_eq!(scan("y = 1\ndef f(y)\n  x =- y\nend\n", "n.rb"), "");
}
