use gptcommit::util::{get_file_name_from_diff, split_diff, split_prefix_inclusive};

const EXAMPLE_DIFF: &str = "diff --git a/Cargo.toml b/Cargo.toml
index 1f3d3c2..5b0c1aa 100644
--- a/Cargo.toml
+++ b/Cargo.toml
@@ -1,6 +1,6 @@
 [package]
 name = \"example\"
-version = \"0.1.0\"
+version = \"0.2.0\"
 edition = \"2021\"
diff --git a/README.md b/README.md
index 3b18e51..c2f4a4e 100644
--- a/README.md
+++ b/README.md
@@ -1,3 +1,5 @@
 # example
+
+An example.
diff --git a/src/lib.rs b/src/lib.rs
index 7d12a5f..0e6c0b2 100644
--- a/src/lib.rs
+++ b/src/lib.rs
@@ -1,3 +1,7 @@
 pub fn one() -> u32 {
     1
 }
+
+pub fn two() -> u32 {
+    2
+}
diff --git a/src/old.rs b/src/new.rs
similarity index 100%
rename from src/old.rs
rename to src/new.rs
diff --git a/tests/one.rs b/tests/one.rs
new file mode 100644
index 0000000..9d1b7f3
--- /dev/null
+++ b/tests/one.rs
@@ -0,0 +1,4 @@
+#[test]
+fn one() {
+    assert_eq!(example::one(), 1);
+}
";

#[test]
fn test_split_prefix_inclusive() {
    let string = EXAMPLE_DIFF;
    let pattern = "diff --git ";
    assert_eq!(split_prefix_inclusive(string, pattern).len(), 5);
}

#[test]
fn test_basic_split_prefix_inclusive() {
    let string = "x111x222x333";
    let pattern = "x";
    assert_eq!(split_prefix_inclusive(string, pattern).len(), 3);
    assert_eq!(
        split_prefix_inclusive(string, pattern),
        &["x111", "x222", "x333"]
    );
}

#[test]
fn test_basic_split_prefix_inclusive_2() {
    let string = "x111\nx222\nx333";
    let pattern = "\nx";
    assert_eq!(split_prefix_inclusive(string, pattern).len(), 3);
    assert_eq!(
        split_prefix_inclusive(string, pattern),
        &["x111", "\nx222", "\nx333"]
    );
}

#[test]
fn test_get_file_name_from_diff() {
    assert_eq!(get_file_name_from_diff(""), None);
    assert_eq!(get_file_name_from_diff("asdasdas"), None);
    assert_eq!(get_file_name_from_diff("diff --git a/"), None);
    assert_eq!(get_file_name_from_diff("diff --git b/"), None);
    assert_eq!(
        get_file_name_from_diff(
            &r#"
diff --git a/foo b/foo
new file mode 100644
index 0000000..a51b2a6
--- /dev/null
+++ b/foo
@@ -0,0 +1 @@
+sadasdas
"#[1..]
        ),
        Some("foo")
    );

    assert_eq!(
        get_file_name_from_diff(
            "diff --git a/old_name b/new_name\n--- a/old_name\n+++ b/new_name"
        ),
        Some("new_name")
    );
}

#[test]
fn split_without_occurrence_is_one_chunk() {
    assert_eq!(split_prefix_inclusive("no marker here", "\ndiff --git "), &["no marker here"]);
    assert_eq!(split_prefix_inclusive("", "x"), &[""]);
    assert_eq!(split_prefix_inclusive("ab", "abc"), &["ab"]);
}

#[test]
fn split_with_empty_prefix_cuts_every_character() {
    assert_eq!(split_prefix_inclusive("a\u{e9}c", ""), &["a", "\u{e9}", "c", ""]);
}

#[test]
fn split_skips_overlapping_occurrences() {
    assert_eq!(split_prefix_inclusive("aaaa", "aa"), &["aa", "aa"]);
    assert_eq!(split_prefix_inclusive("baaab", "aa"), &["b", "aaab"]);
}

#[test]
fn split_counts_characters_not_bytes() {
    assert_eq!(
        split_prefix_inclusive("\u{4f60}\u{597d}x1\u{4f60}x2", "x"),
        &["\u{4f60}\u{597d}", "x1\u{4f60}", "x2"]
    );
}

#[test]
fn split_chunks_concatenate_to_the_input() {
    for text in [EXAMPLE_DIFF, "", "\ndiff --git ", "x\ndiff --git a\ndiff --git b\n"] {
        let chunks = split_diff(text);
        assert_eq!(chunks.concat(), text);
    }
}

#[test]
fn split_diff_count_follows_the_markers() {
    // four markers, and the text does not begin with one: five chunks
    assert_eq!(EXAMPLE_DIFF.matches("\ndiff --git ").count(), 4);
    assert_eq!(split_diff(EXAMPLE_DIFF).len(), 5);
    // two markers, the first at the very start: two chunks
    let text = "\ndiff --git a/x b/x\n+1\ndiff --git a/y b/y\n+2\n";
    assert_eq!(split_diff(text), &["\ndiff --git a/x b/x\n+1", "\ndiff --git a/y b/y\n+2\n"]);
}

#[test]
fn split_diff_keeps_leading_text_as_a_chunk_of_its_own() {
    let text = "warning: something\ndiff --git a/x b/x\n+1\n";
    assert_eq!(split_diff(text), &["warning: something", "\ndiff --git a/x b/x\n+1\n"]);
    assert_eq!(get_file_name_from_diff(split_diff(text)[0]), None);
    assert_eq!(get_file_name_from_diff(split_diff(text)[1]), Some("x"));
}

#[test]
fn file_names_of_the_example() {
    let names: Vec<Option<&str>> =
        split_diff(EXAMPLE_DIFF).into_iter().map(get_file_name_from_diff).collect();
    assert_eq!(
        names,
        vec![
            Some("Cargo.toml"),
            Some("README.md"),
            Some("src/lib.rs"),
            Some("src/new.rs"),
            Some("tests/one.rs")
        ]
    );
}

#[test]
fn file_name_needs_the_new_path_marker() {
    assert_eq!(get_file_name_from_diff("diff --git a/x c/x"), None);
    assert_eq!(get_file_name_from_diff("diff --git a/x b/"), Some(""));
    assert_eq!(get_file_name_from_diff("diff --git a/x\tb/y\u{a0}rest"), Some("y"));
    assert_eq!(get_file_name_from_diff("text diff --git   a/x \n b/y"), Some("y"));
}
