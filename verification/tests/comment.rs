use process_code_snippets::comment::{find_comments, parse_line_ranges, DirectiveError, LineRangeError};
use process_code_snippets::config::{ConfigError, MacroNameError};
use process_code_snippets::{Comment, Config, Oid};

#[test]
fn parse_line_ranges_test() {
    assert_eq!(parse_line_ranges("123-234"), Ok(("", vec![(123, 234)])));
    assert_eq!(
        parse_line_ranges("123-234,250-300"),
        Ok(("", vec![(123, 234), (250, 300)]))
    );
    assert_eq!(parse_line_ranges("123"), Ok(("", vec![(123, 123)])));
}

#[test]
fn from_comment_test() {
    let comment =
        "%: 29ec1fedbf307e3b7ca731c4a381535fec899b0b\n%: src/lintrans/matrices/wrapper.py";
    let snip = Comment {
        hash: Oid::from_str("29ec1fedbf307e3b7ca731c4a381535fec899b0b").unwrap(),
        filename: String::from("src/lintrans/matrices/wrapper.py"),
        line_ranges: None,
        config: Config::default(),
    };
    assert_eq!(Comment::from_latex_comment(comment).unwrap(), snip);

    let comment =
        "%: 29ec1fedbf307e3b7ca731c4a381535fec899b0b\n%: src/lintrans/matrices/wrapper.py:11-22";
    let snip = Comment {
        hash: Oid::from_str("29ec1fedbf307e3b7ca731c4a381535fec899b0b").unwrap(),
        filename: String::from("src/lintrans/matrices/wrapper.py"),
        line_ranges: Some(vec![(11, 22)]),
        config: Config::default(),
    };
    assert_eq!(Comment::from_latex_comment(comment).unwrap(), snip);

    let comment =
        "%: 29ec1fedbf307e3b7ca731c4a381535fec899b0b\n%: src/lintrans/matrices/wrapper.py:11";
    let snip = Comment {
        hash: Oid::from_str("29ec1fedbf307e3b7ca731c4a381535fec899b0b").unwrap(),
        filename: String::from("src/lintrans/matrices/wrapper.py"),
        line_ranges: Some(vec![(11, 11)]),
        config: Config::default(),
    };
    assert_eq!(Comment::from_latex_comment(comment).unwrap(), snip);

    let comment =
        "%: 29ec1fedbf307e3b7ca731c4a381535fec899b0b\n%: src/lintrans/matrices/wrapper.py:11-20,24,31-40";
    let snip = Comment {
        hash: Oid::from_str("29ec1fedbf307e3b7ca731c4a381535fec899b0b").unwrap(),
        filename: String::from("src/lintrans/matrices/wrapper.py"),
        line_ranges: Some(vec![(11, 20), (24, 24), (31, 40)]),
        config: Config::default(),
    };
    assert_eq!(Comment::from_latex_comment(comment).unwrap(), snip);
}

const FILE: &str = r#""""A module containing a simple MatrixWrapper class to wrap matrices and context."""

import numpy as np

from lintrans.typing import MatrixType


class MatrixWrapper:
    """A simple wrapper class to hold all possible matrices and allow access to them."""

    def __init__(self):
        """Initialise a MatrixWrapper object with a matrices dict."""
        self._matrices: dict[str, MatrixType | None] = {
            'A': None, 'B': None, 'C': None, 'D': None,
            'E': None, 'F': None, 'G': None, 'H': None,
            'I': np.eye(2),  # I is always defined as the identity matrix
            'J': None, 'K': None, 'L': None, 'M': None,
            'N': None, 'O': None, 'P': None, 'Q': None,
            'R': None, 'S': None, 'T': None, 'U': None,
            'V': None, 'W': None, 'X': None, 'Y': None,
            'Z': None
        }

    def __getitem__(self, name: str) -> MatrixType | None:
        """Get the matrix with `name` from the dictionary.

        Raises:
            KeyError:
                If there is no matrix with the given name
        """
        return self._matrices[name]

    def __setitem__(self, name: str, new_matrix: MatrixType) -> None:
        """Set the value of matrix `name` with the new_matrix.

        Raises:
            ValueError:
                If `name` isn't a valid matrix name
        """
        name = name.upper()

        if name == 'I' or name not in self._matrices:
            raise NameError('Matrix name must be a capital letter and cannot be "I"')

        self._matrices[name] = new_matrix"#;

const FILE_11_22: &str = r#"    def __init__(self):
        """Initialise a MatrixWrapper object with a matrices dict."""
        self._matrices: dict[str, MatrixType | None] = {
            'A': None, 'B': None, 'C': None, 'D': None,
            'E': None, 'F': None, 'G': None, 'H': None,
            'I': np.eye(2),  # I is always defined as the identity matrix
            'J': None, 'K': None, 'L': None, 'M': None,
            'N': None, 'O': None, 'P': None, 'Q': None,
            'R': None, 'S': None, 'T': None, 'U': None,
            'V': None, 'W': None, 'X': None, 'Y': None,
            'Z': None
        }"#;

const FILE_31_40: &str = r#"        return self._matrices[name]

    def __setitem__(self, name: str, new_matrix: MatrixType) -> None:
        """Set the value of matrix `name` with the new_matrix.

        Raises:
            ValueError:
                If `name` isn't a valid matrix name
        """
        name = name.upper()"#;

/// The text of the file as it stands on disk: with a line feed after its last line.
fn wrapper_py() -> String {
    let mut content = String::from(FILE);
    content.push('\n');
    content
}

#[test]
fn get_text_test() {
    let content = wrapper_py();

    let snip = Comment::from_latex_comment(
        "%: 29ec1fedbf307e3b7ca731c4a381535fec899b0b\n%: src/lintrans/matrices/wrapper.py",
    )
    .unwrap();
    assert_eq!(
        snip.get_text(&content).bodies,
        vec![(FILE.to_string(), 1, 45)]
    );

    let snip = Comment::from_latex_comment(
        "%: 29ec1fedbf307e3b7ca731c4a381535fec899b0b\n%: src/lintrans/matrices/wrapper.py:11-22",
    )
    .unwrap();
    assert_eq!(
        snip.get_text(&content).bodies,
        vec![(FILE_11_22.to_string(), 11, 22)]
    );

    let snip = Comment::from_latex_comment(
        "%: 29ec1fedbf307e3b7ca731c4a381535fec899b0b\n%: src/lintrans/matrices/wrapper.py:11",
    )
    .unwrap();
    assert_eq!(
        snip.get_text(&content).bodies,
        vec![("    def __init__(self):".to_string(), 11, 11)]
    );

    let snip = Comment::from_latex_comment(
        "%: 29ec1fedbf307e3b7ca731c4a381535fec899b0b\n%: src/lintrans/matrices/wrapper.py:11-22,24,31-40",
    )
    .unwrap();
    assert_eq!(
        snip.get_text(&content).bodies,
        vec![
            (FILE_11_22.to_string(), 11, 22),
            (
                "    def __getitem__(self, name: str) -> MatrixType | None:".to_string(),
                24,
                24
            ),
            (FILE_31_40.to_string(), 31, 40)
        ]
    );
}

fn read(comment: &str) -> Comment {
    Comment::from_latex_comment(comment).unwrap()
}

const HASH: &str = "29ec1fedbf307e3b7ca731c4a381535fec899b0b";

fn directive(second_line: &str) -> String {
    format!("%: {}\n%: {}", HASH, second_line)
}

#[test]
fn a_method_of_a_class_has_the_class_as_its_scope() {
    let text = read(&directive("wrapper.py:11-22")).get_text(&wrapper_py());
    assert_eq!(text.scopes, vec![(8, String::from("class MatrixWrapper:"))]);
    assert_eq!(text.bodies, vec![(FILE_11_22.to_string(), 11, 22)]);
}

#[test]
fn scopes_are_found_for_the_smallest_first_line_only() {
    let text = read(&directive("wrapper.py:40,11")).get_text(&wrapper_py());
    assert_eq!(text.scopes, vec![(8, String::from("class MatrixWrapper:"))]);
    assert_eq!(text.bodies.len(), 2);
    assert_eq!(text.bodies[0].1, 40);
    assert_eq!(text.bodies[1].1, 11);
    let text = read(&directive("wrapper.py:40")).get_text(&wrapper_py());
    assert_eq!(
        text.scopes,
        vec![
            (8, String::from("class MatrixWrapper:")),
            (
                33,
                String::from(
                    "    def __setitem__(self, name: str, new_matrix: MatrixType) -> None:"
                )
            ),
        ]
    );
}

#[test]
fn noscopes_leaves_the_scopes_out() {
    let text = read(&directive("wrapper.py:40 noscopes")).get_text(&wrapper_py());
    assert!(text.scopes.is_empty());
    assert_eq!(
        text.bodies,
        vec![(String::from("        name = name.upper()"), 40, 40)]
    );
}

#[test]
fn of_two_lines_with_one_indentation_the_nearer_is_the_scope() {
    let content = "class A:\n    def f(self):\n        pass\n\nclass B:\n    def g(self):\n        x = 1\n        y = 2\n";
    let text = read(&directive("a.py:8")).get_text(content);
    assert_eq!(
        text.scopes,
        vec![
            (5, String::from("class B:")),
            (6, String::from("    def g(self):")),
        ]
    );
}

#[test]
fn indented_lines_above_the_nearest_top_level_line_are_no_scopes() {
    let content = "\"\"\"Doc.\n\n    indented block\n\"\"\"\nx = 1\n        y = 2\n";
    let text = read(&directive("a.py:6")).get_text(content);
    assert_eq!(text.scopes, vec![(5, String::from("x = 1"))]);
    let content = "    indented block\n        y = 2\n";
    let text = read(&directive("a.py:2")).get_text(content);
    assert!(text.scopes.is_empty());
}

#[test]
fn odd_indentation_and_empty_lines_are_no_scopes() {
    let content = "def f():\n  two\n   three\n\n    if x:\n      six\n        body\n";
    let text = read(&directive("a.py:7")).get_text(content);
    assert_eq!(
        text.scopes,
        vec![(1, String::from("def f():")), (5, String::from("    if x:"))]
    );
}

#[test]
fn a_snippet_without_indentation_has_no_scopes() {
    let text = read(&directive("wrapper.py:8")).get_text(&wrapper_py());
    assert!(text.scopes.is_empty());
}

#[test]
fn lines_end_at_line_feeds_with_or_without_carriage_return() {
    let text = read(&directive("a.txt:1-3 noscopes")).get_text("one\r\ntwo\nthree\r\n");
    assert_eq!(text.bodies, vec![(String::from("one\ntwo\nthree"), 1, 3)]);
    let text = read(&directive("a.txt")).get_text("one\n\nthree");
    assert_eq!(text.bodies, vec![(String::from("one\n\nthree"), 1, 3)]);
    let text = read(&directive("a.txt")).get_text("\n");
    assert_eq!(text.bodies, vec![(String::new(), 1, 1)]);
}

#[test]
fn a_range_beyond_the_file_is_cut_at_its_end() {
    let text = read(&directive("a.txt:2-9 noscopes")).get_text("one\ntwo\nthree\n");
    assert_eq!(text.bodies, vec![(String::from("two\nthree"), 2, 9)]);
    let text = read(&directive("a.txt:7-9 noscopes")).get_text("one\ntwo\nthree\n");
    assert_eq!(text.bodies, vec![(String::new(), 7, 9)]);
}

const NOTICE: &str = "# lintrans - The linear transformation visualizer\n# Copyright (C) 2021-2022 D. Dyson (DoctorDalek1963)\n\n# This program is licensed under GNU GPLv3, available here:\n# <https://www.gnu.org/licenses/gpl-3.0.html>\n";

#[test]
fn the_copyright_notice_is_left_out_of_a_whole_file() {
    let content = format!("{}\n\"\"\"Doc.\"\"\"\nx = 1\n", NOTICE);
    let text = read(&directive("a.py")).get_text(&content);
    assert_eq!(
        text.bodies,
        vec![(String::from("\"\"\"Doc.\"\"\"\nx = 1"), 7, 8)]
    );
    assert!(text.scopes.is_empty());
    let text = read(&directive("a.py keep_copyright_comment")).get_text(&content);
    assert_eq!(text.bodies[0].1, 1);
    assert_eq!(text.bodies[0].2, 8);
    let text = read(&directive("a.py:1-2")).get_text(&content);
    assert_eq!(text.bodies[0].1, 1);
    assert_eq!(
        text.bodies[0].0,
        "# lintrans - The linear transformation visualizer\n# Copyright (C) 2021-2022 D. Dyson (DoctorDalek1963)"
    );
}

#[test]
fn the_notice_may_follow_an_interpreter_line() {
    let content = format!("#!/usr/bin/env python\n\n{}\nimport os\n", NOTICE);
    let text = read(&directive("a.py")).get_text(&content);
    assert_eq!(text.bodies, vec![(String::from("import os"), 9, 9)]);
    let content = format!("#!/bin/sh\n\n{}\nimport os\n", NOTICE);
    let text = read(&directive("a.py")).get_text(&content);
    assert_eq!(text.bodies[0].1, 1);
}

#[test]
fn a_notice_that_differs_stays() {
    let content = format!("{}\nx = 1\n", NOTICE.replace("2021-2022", "2020-2022"));
    assert_eq!(read(&directive("a.py")).get_text(&content).bodies[0].1, 1);
    let content = format!("{}\nx = 1\n", NOTICE.replace("2021-2022", "2022"));
    assert_eq!(read(&directive("a.py")).get_text(&content).bodies[0].1, 7);
    let content = format!("{}\nx = 1\n", NOTICE.replace("D. Dyson (DoctorDalek1963)\n\n", "D. Dyson (DoctorDalek1963)\n#\n"));
    assert_eq!(read(&directive("a.py")).get_text(&content).bodies[0].1, 7);
    let content = format!("{}\nx = 1\n", NOTICE.replace("# lintrans", "#lintrans"));
    assert_eq!(read(&directive("a.py")).get_text(&content).bodies[0].1, 1);
    let content = format!("{}\nx = 1\n", NOTICE.replace("# lintrans", "#  \tlintrans"));
    assert_eq!(read(&directive("a.py")).get_text(&content).bodies[0].1, 7);
    let content = format!(" {}\nx = 1\n", NOTICE);
    assert_eq!(read(&directive("a.py")).get_text(&content).bodies[0].1, 1);
}

#[test]
fn fits_tells_whether_the_snippet_can_be_cut() {
    let content = "one\ntwo\n";
    assert!(read(&directive("a.txt")).fits(content));
    assert!(!read(&directive("a.txt")).fits(""));
    assert!(read(&directive("a.txt:2")).fits(content));
    assert!(!read(&directive("a.txt:3")).fits(content));
    assert!(read(&directive("a.txt:3 noscopes")).fits(content));
    assert!(!read(&directive("a.txt:0-1 noscopes")).fits(content));
    assert!(!read(&directive("a.txt:2-1 noscopes")).fits(content));
    assert!(read(&directive("a.txt")).fits(NOTICE));
    assert!(!read(&directive("a.txt")).fits(&format!("{}\n", NOTICE)));
    assert!(read(&directive("a.txt keep_copyright_comment")).fits(&format!("{}\n", NOTICE)));
}

#[test]
fn a_line_list_is_read_as_far_as_it_goes() {
    let comment = read(&directive("a.py:12-,3 noscopes"));
    assert_eq!(comment.line_ranges, Some(vec![(12, 12)]));
    assert_eq!(comment.config, Config::default());
    let comment = read(&directive("a.py:1,2, noscopes"));
    assert_eq!(comment.line_ranges, Some(vec![(1, 1), (2, 2)]));
    assert!(comment.config.no_scopes);
    let comment = read(&directive("a.py:x"));
    assert_eq!(comment.filename, "a.py");
    assert_eq!(comment.line_ranges, None);
    assert_eq!(comment.config, Config::default());
    let comment = read(&directive("a.py:1-99999999999"));
    assert_eq!(comment.line_ranges, Some(vec![(1, 1)]));
    assert_eq!(
        parse_line_ranges("1,2-x"),
        Ok(("-x", vec![(1, 1), (2, 2)]))
    );
    assert_eq!(parse_line_ranges("7,x"), Ok((",x", vec![(7, 7)])));
    assert_eq!(parse_line_ranges("4294967295"), Ok(("", vec![(4294967295, 4294967295)])));
    assert_eq!(parse_line_ranges("4294967296"), Err(LineRangeError));
    assert_eq!(parse_line_ranges("x"), Err(LineRangeError));
    assert_eq!(parse_line_ranges(""), Err(LineRangeError));
}

#[test]
fn text_that_is_no_snippet_comment_gives_none() {
    assert_eq!(Comment::from_latex_comment(""), None);
    assert_eq!(Comment::from_latex_comment("%: a.py"), None);
    assert_eq!(
        Comment::from_latex_comment(&format!("%: {}\n%: ", HASH)),
        None
    );
    assert_eq!(
        Comment::from_latex_comment(&format!("%: {}\n%:a.py", HASH)),
        None
    );
    assert_eq!(
        Comment::from_latex_comment(&format!("%: {}\n%: a.py", &HASH[1..])),
        None
    );
    assert_eq!(
        Comment::from_latex_comment(&format!("%: {}\n%: a.py", HASH.to_uppercase())),
        None
    );
    assert_eq!(
        Comment::from_latex_comment(&format!(" %: {}\n%: a.py", HASH)),
        None
    );
}

#[test]
fn the_first_snippet_comment_of_a_text_is_read() {
    let text = format!(
        "Some text.\n{}\nMore text.\n{}\n",
        directive("a.py:3"),
        directive("b.py")
    );
    let comment = read(&text);
    assert_eq!(comment.filename, "a.py");
    assert_eq!(comment.line_ranges, Some(vec![(3, 3)]));
    assert_eq!(
        find_comments(&text),
        vec![directive("a.py:3"), directive("b.py")]
    );
    assert_eq!(find_comments("no comment here\n"), Vec::<String>::new());
}

#[test]
fn a_comment_that_cannot_be_read_is_an_error() {
    assert_eq!(
        Comment::try_from_latex_comment(&directive("a.py:99999999999")),
        Err(DirectiveError::LineNumber)
    );
    assert_eq!(
        Comment::try_from_latex_comment(&directive("a.py latex!")),
        Err(DirectiveError::Config(ConfigError::MacroName(
            MacroNameError {
                name: String::from("latex")
            }
        )))
    );
    assert_eq!(Comment::try_from_latex_comment("nothing"), Ok(None));
    assert_eq!(
        Comment::try_from_latex_comment(&directive("a.py:3")),
        Ok(Some(read(&directive("a.py:3"))))
    );
}

#[test]
fn details_name_the_revision_the_file_the_lines_and_the_options() {
    assert_eq!(read(&directive("src/a.py")).details(), "29ec1fed src/a.py");
    assert_eq!(
        read(&directive("src/a.py:11-20,24,31-40 noscopes")).details(),
        "29ec1fed src/a.py:11-20,24,31-40 noscopes"
    );
    assert_eq!(
        read(&directive("a.py:7-7 language=RUst")).details(),
        "29ec1fed a.py:7 language=rust"
    );
}
