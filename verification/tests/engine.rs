//! End-to-end and component tests for the highlighting engine.

use rexpl::ast::{ByteSpan, SyntaxTree};
use rexpl::compile::CompileError;
use rexpl::compose::{byte_len, split_lines, style_string, StyledChar};
use rexpl::highlight::style_captures;
use rexpl::locate::{locate_marker, MarkerRect};
use rexpl::painter::{paint, style_ast};
use rexpl::parse::parse;
use rexpl::session::{Session, SessionState};
use rexpl::style::{Color, Style};

#[test]
fn parse_empty_pattern_gives_empty_tree() {
    let r = parse("");
    match r {
        Ok(SyntaxTree::Empty(sp)) => {
            assert_eq!(sp.start, 0);
            assert_eq!(sp.end, 0);
        }
        other => panic!("expected an empty-node tree, got {:?}", other),
    }
}

#[test]
fn parse_is_deterministic_on_equal_input() {
    let a = parse("a(b|c)*[x-z]+");
    let b = parse("a(b|c)*[x-z]+");
    assert_eq!(a, b);
    let c = parse("(");
    let d = parse("(");
    assert_eq!(c, d);
}

#[test]
fn parsed_tree_spans_nest_and_cover() {
    let t = parse("a(b|c)d").expect("pattern parses");
    // The root concatenation covers the whole pattern.
    match &t {
        SyntaxTree::Concat(sp, kids) => {
            assert_eq!((sp.start, sp.end), (0, 7));
            assert_eq!(kids.len(), 3);
            // Siblings are ordered and disjoint.
            let spans: Vec<(usize, usize)> = kids
                .iter()
                .map(|k| {
                    let s = k.span();
                    (s.start, s.end)
                })
                .collect();
            assert_eq!(spans, vec![(0, 1), (1, 6), (6, 7)]);
            // The group's child lies inside the group.
            match &kids[1] {
                SyntaxTree::Group(gsp, inner) => {
                    let isp = inner.span();
                    assert!(gsp.start <= isp.start && isp.end <= gsp.end);
                }
                other => panic!("expected a group, got {:?}", other),
            }
        }
        other => panic!("expected a concatenation, got {:?}", other),
    }
}

#[test]
fn overlay_overwrite_rule_group_and_literal() {
    // A Group spanning [2,10) with a Literal child spanning [4,6):
    // the child's color wins inside [4,6), the group's everywhere else.
    let tree = SyntaxTree::Group(
        ByteSpan { start: 2, end: 10 },
        Box::new(SyntaxTree::Literal(ByteSpan { start: 4, end: 6 })),
    );
    let o = paint(&tree, 12);
    assert_eq!(o.len(), 12);
    for i in 0..12 {
        let expected = if (4..6).contains(&i) {
            Some(Color::Yellow)
        } else if (2..10).contains(&i) {
            Some(Color::Green)
        } else {
            None
        };
        assert_eq!(o[i].fg, expected, "offset {}", i);
        assert_eq!(o[i].bg, None, "offset {}", i);
    }
}

#[test]
fn composition_round_trip_multibyte() {
    let s = "a\u{e9}\u{3c0}\u{1f4a1}x"; // 1 + 2 + 2 + 4 + 1 = 10 bytes
    let n = byte_len(s);
    assert_eq!(n, 10);
    let mut overlay = vec![Style::new(); n];
    // Distinct colors at each character's first byte offset.
    let firsts = [0usize, 1, 3, 5, 9];
    let colors = [Color::Red, Color::Green, Color::Blue, Color::Cyan, Color::Magenta];
    for (f, c) in firsts.iter().zip(colors.iter()) {
        overlay[*f] = overlay[*f].with_fg(*c);
    }
    let line = style_string(s, &overlay);
    assert_eq!(line.len(), s.chars().count());
    let chars: Vec<char> = s.chars().collect();
    for (k, cell) in line.iter().enumerate() {
        assert_eq!(cell.ch, chars[k]);
        assert_eq!(cell.style.fg, Some(colors[k]));
    }
}

#[test]
fn match_highlighter_marks_both_occurrences() {
    let mut session = Session::new();
    session.set_pattern("X".to_owned());
    assert_eq!(session.state(), SessionState::Valid);
    let overlay = session.subject_overlay("aXbXc").expect("matcher exists");
    assert_eq!(overlay.len(), 5);
    for (i, st) in overlay.iter().enumerate() {
        if i == 1 || i == 3 {
            assert_eq!(st.bg, Some(Color::Red), "offset {}", i);
        } else {
            assert_eq!(st.bg, None, "offset {}", i);
        }
    }
}

#[test]
fn style_captures_ignores_out_of_range_offsets() {
    let o = style_captures(3, &vec![(1, 10)]);
    assert_eq!(o.len(), 3);
    assert_eq!(o[0].bg, None);
    assert_eq!(o[1].bg, Some(Color::Red));
    assert_eq!(o[2].bg, Some(Color::Red));
}

#[test]
fn locate_marker_places_rect_below_input_line() {
    let r = locate_marker(0, 0, 3, 5);
    assert_eq!(r, MarkerRect { x: 3, y: 1, width: 2, height: 1 });
}

#[test]
fn locate_marker_clamps_zero_width_to_one() {
    let r = locate_marker(0, 0, 3, 3);
    assert_eq!(r, MarkerRect { x: 3, y: 1, width: 1, height: 1 });
}

#[test]
fn locate_marker_saturates_at_machine_limit() {
    let r = locate_marker(usize::MAX, 0, 5, 6);
    assert_eq!(r.x, usize::MAX);
    assert_eq!(r.y, 1);
}

#[test]
fn unterminated_group_reports_syntax_error() {
    let mut session = Session::new();
    session.set_pattern("(".to_owned());
    assert_eq!(session.state(), SessionState::ParseInvalid);
    // No matcher, so no subject overlay.
    assert!(session.subject_overlay("abc").is_none());
    assert!(session.subject_line("abc").is_none());
    // The message names the syntax error.
    assert_eq!(session.message(), "unclosed group");
    // The primary span points at the unmatched parenthesis.
    let err = session.ast().as_ref().err().expect("parse failed");
    assert_eq!(err.primary.start.offset, 0);
    let markers = session.markers(0, 0);
    assert_eq!(markers.len(), 1);
    assert_eq!(markers[0].y, 1);
}

#[test]
fn duplicate_flag_reports_auxiliary_marker() {
    let mut session = Session::new();
    session.set_pattern("(?ii)".to_owned());
    assert_eq!(session.state(), SessionState::ParseInvalid);
    assert_eq!(session.message(), "duplicate flag");
    let err = session.ast().as_ref().err().expect("parse failed");
    assert!(err.auxiliary.is_some());
    let markers = session.markers(0, 0);
    assert_eq!(markers.len(), 2);
}

#[test]
fn a_plus_scenario_styles_and_matches() {
    let mut session = Session::new();
    session.set_pattern("a+".to_owned());
    assert_eq!(session.state(), SessionState::Valid);
    assert_eq!(session.message(), "Nice");
    let line = session.pattern_line();
    assert_eq!(line.len(), 2);
    assert_eq!(line[0].ch, 'a');
    assert_eq!(line[0].style.fg, Some(Color::Yellow)); // literal
    assert_eq!(line[1].ch, '+');
    assert_eq!(line[1].style.fg, Some(Color::LightGreen)); // repetition
    let overlay = session.subject_overlay("aaab").expect("matcher exists");
    assert_eq!(overlay.len(), 4);
    for i in 0..3 {
        assert_eq!(overlay[i].bg, Some(Color::Red), "offset {}", i);
    }
    assert_eq!(overlay[3].bg, None);
}

#[test]
fn empty_pattern_matches_everywhere_without_styling() {
    let mut session = Session::new();
    session.set_pattern(String::new());
    assert_eq!(session.state(), SessionState::Empty);
    assert_eq!(session.message(), "Nice");
    assert!(session.markers(0, 0).is_empty());
    assert!(session.pattern_line().is_empty());
    // The empty pattern compiles to a matcher; it matches the empty
    // string at every position, which marks no byte at all.
    let overlay = session.subject_overlay("xyz").expect("matcher exists");
    assert_eq!(overlay.len(), 3);
    for st in &overlay {
        assert_eq!(st.bg, None);
        assert_eq!(st.fg, None);
    }
    // A first (empty) match exists.
    let caps = session.captures("xyz").expect("an empty match exists");
    assert_eq!(caps[0], Some((0, 0)));
}

#[test]
fn size_ceiling_reports_compiled_too_big() {
    let mut session = Session::with_size_limit(45_000);
    session.set_pattern("\\w".to_owned());
    assert_eq!(session.state(), SessionState::CompileInvalid);
    assert_eq!(session.message(), "Compiled regex ist too big!");
    // Compile errors are not mapped to marker positions.
    assert!(session.markers(0, 0).is_empty());
}

#[test]
fn compile_only_failure_is_compile_invalid() {
    // Parses as a syntax tree, but the compiler rejects a non-ASCII
    // byte literal with Unicode mode disabled.
    let mut session = Session::new();
    session.set_pattern("(?-u)\\xFF".to_owned());
    assert_eq!(session.state(), SessionState::CompileInvalid);
    assert!(session.markers(0, 0).is_empty());
    assert!(!session.message().is_empty());
    assert!(matches!(session.matcher(), Err(CompileError::Syntax(_))));
}

#[test]
fn captures_report_group_spans() {
    let mut session = Session::new();
    session.set_pattern("a(b)".to_owned());
    let caps = session.captures("ab").expect("pattern matches");
    assert_eq!(caps.len(), 2);
    assert_eq!(caps[0], Some((0, 2)));
    assert_eq!(caps[1], Some((1, 2)));
    assert!(session.captures("zzz").is_none());
}

#[test]
fn bracketed_class_paints_items_over_class() {
    let t = parse("[ab]").expect("pattern parses");
    let o = paint(&t, 4);
    assert_eq!(o[0].fg, Some(Color::Cyan)); // [
    assert_eq!(o[1].fg, Some(Color::Yellow)); // a: class literal
    assert_eq!(o[2].fg, Some(Color::Yellow)); // b: class literal
    assert_eq!(o[3].fg, Some(Color::Cyan)); // ]
}

#[test]
fn node_color_table_applies_by_kind() {
    let sp = ByteSpan { start: 0, end: 1 };
    let st = Style::new();
    assert_eq!(style_ast(&SyntaxTree::Dot(sp), st).fg, Some(Color::White));
    assert_eq!(style_ast(&SyntaxTree::Assertion(sp), st).fg, Some(Color::LightRed));
    assert_eq!(style_ast(&SyntaxTree::Alternation(sp, vec![]), st).fg, Some(Color::Blue));
    // Concatenation passes the style through unchanged.
    let tinted = st.with_fg(Color::Magenta);
    assert_eq!(style_ast(&SyntaxTree::Concat(sp, vec![]), tinted), tinted);
}

#[test]
fn log_buffer_appends_and_inspects() {
    let mut log = rexpl::log_buf::Log::new();
    assert!(log.inspect().is_empty());
    assert_eq!(log.write(b"abc"), 3);
    assert_eq!(log.write(b"de"), 2);
    assert_eq!(log.inspect().as_slice(), b"abcde");
}

#[test]
fn split_lines_drops_newline_cells() {
    let st = Style::new();
    let cells = |s: &str| -> Vec<StyledChar> { s.chars().map(|c| StyledChar::new(c, st)).collect() };
    let text = |lines: &Vec<Vec<StyledChar>>| -> Vec<String> {
        lines
            .iter()
            .map(|l| l.iter().map(|c| c.ch).collect::<String>())
            .collect()
    };
    assert_eq!(text(&split_lines(&cells(""))), Vec::<String>::new());
    assert_eq!(text(&split_lines(&cells("ab"))), vec!["ab"]);
    assert_eq!(text(&split_lines(&cells("a\nb"))), vec!["a", "b"]);
    assert_eq!(text(&split_lines(&cells("a\n"))), vec!["a"]);
    assert_eq!(text(&split_lines(&cells("\na"))), vec!["", "a"]);
    assert_eq!(text(&split_lines(&cells("\n"))), vec![""]);
}

#[test]
fn multiline_subject_splits_and_keeps_marks() {
    let mut session = Session::new();
    session.set_pattern("y".to_owned());
    let line = session.subject_line("x\ny").expect("matcher exists");
    assert_eq!(line.len(), 3);
    let lines = split_lines(&line);
    assert_eq!(lines.len(), 2);
    assert_eq!(lines[0].len(), 1);
    assert_eq!(lines[0][0].ch, 'x');
    assert_eq!(lines[0][0].style.bg, None);
    assert_eq!(lines[1].len(), 1);
    assert_eq!(lines[1][0].ch, 'y');
    assert_eq!(lines[1][0].style.bg, Some(Color::Red));
}
