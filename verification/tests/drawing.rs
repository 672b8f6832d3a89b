use tadoru::icons;
use tadoru::icons::prefix;
use tadoru::paths::{strip_verbatim, Location, Platform};
use tadoru::rows::{
    breadcrumb, browse_row, centred_scroll, crumb_spans, footer_line, highlight_line,
    inline_height, list_dir, location_spans, mode_tabs, result_row, RowMarks,
};
use tadoru::screen::{Color, Line, Tone};
use tadoru::width::fit;

const HERE: Platform = Platform::Linux;

fn place(anchor: &str, parts: &[&str]) -> Location {
    Location {
        anchor: anchor.to_string(),
        parts: parts.iter().map(|part| part.to_string()).collect(),
    }
}

fn pieces(line: &Line) -> Vec<(String, bool)> {
    line.spans
        .iter()
        .map(|s| {
            (
                s.text.clone(),
                s.tone.style().fg == Some(Color::Indexed(108)),
            )
        })
        .collect()
}

#[test]
fn office_documents_use_distinct_icons_with_case_insensitive_extensions() {
    let sheet = prefix("特性要因図.xlsx", false, true, HERE);
    assert_eq!(prefix("jitsurei_6.XLSM", false, true, HERE), sheet);
    assert_eq!(prefix("test.csv", false, true, HERE), sheet);
    let word = prefix("report.docx", false, true, HERE);
    let slides = prefix("slides.pptx", false, true, HERE);
    let pdf = prefix("report.pdf", false, true, HERE);
    let generic = prefix("unknown", false, true, HERE);
    let icons = [sheet, word, slides, pdf, generic];
    for (i, icon) in icons.iter().enumerate() {
        assert!(!icons[i + 1..].contains(icon));
    }
    assert_eq!(
        prefix("folder.xlsx", true, true, HERE),
        prefix("folder", true, true, HERE)
    );
    assert_eq!(prefix("report.xlsx", false, false, HERE), "");
}

#[test]
fn capitals_leave_the_icon_as_it_is() {
    for name in ["a.xlsx", "src/Main.rs", "x.Tar.Gz", "plain", ".hidden", "..", "d.d/e"] {
        for platform in [Platform::Linux, Platform::Windows] {
            assert_eq!(
                prefix(&name.to_ascii_uppercase(), false, true, platform),
                prefix(name, false, true, platform)
            );
        }
    }
}

#[test]
fn every_kind_of_file_has_its_icon_and_colour() {
    for (name, icon, colour) in [
        ("a.ods", "\u{f1c3} ", 71),
        ("a.rtf", "\u{f1c2} ", 75),
        ("a.odp", "\u{f1c4} ", 208),
        ("a.PDF", "\u{f1c1} ", 203),
        ("a.toml", "\u{f013} ", 109),
        ("a.duckdb", "\u{f1c0} ", 179),
        ("a.msix", "\u{f085} ", 114),
        ("a.woff2", "\u{f031} ", 180),
        ("src/a.rs", "\u{f121} ", 110),
        ("a.svg", "\u{f1c5} ", 176),
        ("a.tar.gz", "\u{f1c6} ", 179),
        ("a.ogg", "\u{f1c7} ", 80),
        ("a.mkv", "\u{f1c8} ", 173),
        ("a.md", "\u{f15c} ", 114),
    ] {
        assert_eq!(prefix(name, false, true, HERE), icon, "{name}");
        let span = icons::span(icon);
        assert_eq!(span.text, icon);
        assert_eq!(span.tone, Tone::Icon(colour), "{name}");
    }
    // A name that only starts with a dot has no extension.
    assert_eq!(prefix(".rs", false, true, HERE), "\u{f15b} ");
    assert_eq!(icons::span("\u{f15b} ").tone, Tone::Plain);
    assert_eq!(icons::span("★ ").tone, Tone::Icon(220));
    assert_eq!(icons::span(icons::OPEN_FOLDER).tone, Tone::Icon(75));
    // Which name counts as the last one depends on the separators.
    assert_eq!(prefix("dir\\.rs", false, true, Platform::Windows), "\u{f15b} ");
    assert_eq!(prefix("dir\\.rs", false, true, Platform::Linux), "\u{f121} ");
}

#[test]
fn the_parent_column_keeps_the_current_folder_off_the_edges() {
    // Short lists never scroll.
    assert_eq!(centred_scroll(0, 3, 10), 0);
    assert_eq!(centred_scroll(2, 3, 10), 0);
    // In a long list the row sits in the middle, with context either side.
    assert_eq!(centred_scroll(20, 100, 10), 15);
    // Near the start and the end the window stops instead of overshooting.
    assert_eq!(centred_scroll(1, 100, 10), 0);
    assert_eq!(centred_scroll(99, 100, 10), 90);
    // A zero-height column asks for nothing.
    assert_eq!(centred_scroll(5, 100, 0), 0);
}

#[test]
fn only_the_directory_being_listed_gets_the_open_folder_icon() {
    let marks = |inside| RowMarks {
        icons: true,
        favorite: false,
        inside,
    };
    // The folder the middle column is listing is the one actually open.
    assert_eq!(marks(true).prefix("work", true, HERE), icons::OPEN_FOLDER);
    // Everything else, selected or not, is just a folder named in a list.
    assert_ne!(marks(false).prefix("work", true, HERE), icons::OPEN_FOLDER);
    // Files are unaffected, and a pin still wins over both.
    assert_ne!(marks(true).prefix("notes.txt", false, HERE), icons::OPEN_FOLDER);
    assert_eq!(
        RowMarks {
            icons: true,
            favorite: true,
            inside: true,
        }
        .prefix("work", true, HERE),
        "★ "
    );
}

#[test]
fn highlights_runs_of_matched_chars() {
    let line = highlight_line(true, "openssl", &vec![0, 1, 2]);
    assert_eq!(
        pieces(&line),
        vec![
            ("▌ ".into(), false),
            ("ope".into(), true),
            ("nssl".into(), false)
        ]
    );
}

#[test]
fn highlights_scattered_and_multibyte_chars() {
    let line = highlight_line(false, r"ドキュメント\src", &vec![1, 7]);
    assert_eq!(
        pieces(&line),
        vec![
            ("  ".into(), false),
            ("ド".into(), false),
            ("キ".into(), true),
            ("ュメント\\".into(), false),
            ("s".into(), true),
            ("rc".into(), false)
        ]
    );
}

#[test]
fn no_indices_means_plain_text() {
    let line = highlight_line(false, "docs", &vec![]);
    assert_eq!(
        pieces(&line),
        vec![("  ".into(), false), ("docs".into(), false)]
    );
}

#[test]
fn the_picker_takes_the_whole_window_whatever_the_history_above() {
    // Shell history no longer costs the listing any rows: it scrolls up.
    assert_eq!(inline_height(50), 50);
    assert_eq!(inline_height(12), 12);
    // A terminal that reports nothing still gets a row to draw in.
    assert_eq!(inline_height(0), 1);
}

#[test]
fn fit_trims_by_display_width() {
    assert_eq!(fit("docs", 10), "docs");
    assert_eq!(fit("devsense.composer-php", 10), "devsense.…");
    // Japanese names take two columns per character.
    assert_eq!(fit("画面録画", 8), "画面録画");
    assert_eq!(fit("画面録画", 7), "画面録…");
    assert_eq!(fit("anything", 0), "");
}

#[test]
fn location_spans_bold_the_last_segment() {
    for (platform, path, shown, parent) in [
        (
            Platform::Linux,
            place("/", &["home", "example", "tadoru"]),
            "/home/example/tadoru",
            place("/", &["home", "example"]),
        ),
        (
            Platform::Windows,
            place("C:\\", &["Users", "example", "tadoru"]),
            r"C:\Users\example\tadoru",
            place("C:\\", &["Users", "example"]),
        ),
    ] {
        // The pieces still read as the path, so nothing is lost by splitting it.
        let spans = location_spans(&path, platform);
        let joined: String = spans.iter().map(|s| s.text.as_str()).collect();
        assert_eq!(joined, shown);

        // Only the folder in view is emphasised; the trail stays quiet.
        let bold: Vec<String> = spans
            .iter()
            .filter(|s| s.tone.style().bold)
            .map(|s| s.text.clone())
            .collect();
        assert_eq!(bold, vec!["tadoru".to_string()]);

        // Every step points at the directory it names, so a click can go there.
        let targets: Vec<Location> = crumb_spans(&path, platform)
            .into_iter()
            .filter_map(|crumb| crumb.dir)
            .collect();
        assert_eq!(targets.last().unwrap(), &path);
        assert_eq!(targets[targets.len() - 2], parent);
        assert!(targets.first().unwrap().parent().is_none());
    }
    let names: Vec<String> = breadcrumb(&place("/", &["a", "b"]), HERE)
        .into_iter()
        .map(|step| step.name)
        .collect();
    assert_eq!(names, ["/", "a", "b"]);
}

#[test]
fn a_notice_is_told_apart_from_the_permanent_key_hints() {
    const HINTS: &str = " Tab: mode  Enter: cd ";
    let tone_of = |line: &Line| line.spans[0].tone;

    // With nothing to say the bar is furniture, drawn like the border.
    let idle = footer_line(&None, HINTS);
    assert_eq!(tone_of(&idle), Tone::Border);
    assert_eq!(idle.spans[0].text, HINTS);
    assert!(idle.right);

    // A confirmation has to stand out from that furniture, or it reads as
    // more of it and goes unnoticed.
    let done = footer_line(&Some("Opened: report.xlsx".into()), HINTS);
    assert_eq!(tone_of(&done), Tone::Notice);
    assert_ne!(tone_of(&done), Tone::Border);

    // A failure is marked apart from a confirmation again.
    for bad in ["Cannot open x: denied", "No available directory in history"] {
        assert_eq!(tone_of(&footer_line(&Some(bad.into()), HINTS)), Tone::NoticeBad);
    }
    assert_ne!(Tone::Notice.style(), Tone::NoticeBad.style());
}

#[test]
fn only_the_focused_column_carries_the_selection_background() {
    let marks = RowMarks {
        icons: false,
        favorite: false,
        inside: false,
    };
    let drawn = |current: bool, side: bool| {
        let line = browse_row("work", true, current, side, &vec![], 20, marks, HERE);
        (
            line.tone.style().bg,
            line.spans[0].text.clone(),
            line.tone.style().fg,
        )
    };

    // The middle column owns the cursor: a background and the pointer bar.
    let (bg, pointer, _) = drawn(true, false);
    assert_eq!(bg, Some(Color::Indexed(236)));
    assert_eq!(pointer, "▌ ");

    // A side column marks the same directory without either, so the two
    // highlighted rows on screen cannot be mistaken for each other.
    let (bg, pointer, fg) = drawn(true, true);
    assert_eq!(bg, None);
    assert_eq!(pointer, "  ");
    assert_eq!(fg, Some(Color::Indexed(161)));

    // An ordinary side row stays muted.
    let (bg, _, fg) = drawn(false, true);
    assert_eq!(bg, None);
    assert_eq!(fg, Some(Color::Indexed(67)));
    // So does a file, and an ordinary row of the middle column is plain.
    let file = browse_row("a", false, false, true, &vec![], 20, marks, HERE);
    assert_eq!(file.tone, Tone::Side);
    let file = browse_row("a", false, false, false, &vec![], 20, marks, HERE);
    assert_eq!(file.tone, Tone::Plain);
}

#[test]
fn favorite_marker_stays_yellow_and_preserves_matches_without_nerd_icons() {
    for icons in [false, true] {
        for current in [false, true] {
            let marks = RowMarks {
                icons,
                favorite: true,
                inside: false,
            };
            let line = browse_row("日本語", true, current, false, &vec![1], 24, marks, HERE);
            let shown: Vec<(&str, Tone)> = line
                .spans
                .iter()
                .map(|s| (s.text.as_str(), s.tone))
                .collect();
            assert_eq!(shown[1], ("★ ", Tone::Icon(220)));
            assert_eq!(shown[2], ("日", Tone::Plain));
            assert_eq!(shown[3], ("本", Tone::Match));
            assert_eq!(shown[4], ("語", Tone::Plain));
            if current {
                assert_eq!(line.tone, Tone::Current);
            }
            for width in 2..12 {
                let line = browse_row(
                    "日本語の名前",
                    true,
                    current,
                    false,
                    &vec![],
                    width,
                    marks,
                    HERE,
                );
                let columns: usize = line
                    .spans
                    .iter()
                    .map(|s| unicode_width::UnicodeWidthStr::width(s.text.as_str()))
                    .sum();
                assert!(columns <= width, "overflow at width {width}");
            }
        }
    }
}

#[test]
fn icon_color_survives_selection_without_changing_filename_or_background() {
    for current in [false, true] {
        let marks = RowMarks {
            icons: true,
            favorite: false,
            inside: false,
        };
        let line = browse_row("表.xlsx", false, current, false, &vec![0], 24, marks, HERE);
        assert_eq!(line.spans[1].tone.style().fg, Some(Color::Indexed(71)));
        assert_eq!(line.spans[1].tone.style().bg, None);
        assert_eq!(line.spans[2].text, "表");
        assert_eq!(line.spans[2].tone, Tone::Match);
        assert_eq!(line.spans[3].text, ".xlsx");
        assert_eq!(line.spans[3].tone, Tone::Plain);
        assert_eq!(
            line.tone.style().fg,
            if current {
                Some(Color::Indexed(255))
            } else {
                None
            }
        );
    }
}

#[test]
fn browse_icons_preserve_highlights_and_fit_narrow_columns() {
    for enabled in [false, true] {
        let marks = RowMarks {
            icons: enabled,
            favorite: false,
            inside: false,
        };
        let line = browse_row("日本.rs", false, false, false, &vec![1], 24, marks, HERE);
        let offset = if enabled { 1 } else { 0 };
        assert_eq!(line.spans[1 + offset].text, "日");
        assert_eq!(line.spans[2 + offset].text, "本");
        assert_eq!(line.spans[2 + offset].tone, Tone::Match);
    }
    for width in 2..12 {
        let marks = RowMarks {
            icons: true,
            favorite: false,
            inside: false,
        };
        let line = browse_row("日本語の名前.rs", false, false, false, &vec![], width, marks, HERE);
        let columns: usize = line
            .spans
            .iter()
            .map(|s| unicode_width::UnicodeWidthStr::width(s.text.as_str()))
            .sum();
        assert!(columns <= width, "overflow at width {width}");
    }
}

#[test]
fn hits_beyond_a_trimmed_name_are_dropped() {
    let marks = RowMarks {
        icons: false,
        favorite: false,
        inside: false,
    };
    let line = browse_row("abcdefgh", false, false, false, &vec![0, 6, 7], 6, marks, HERE);
    assert_eq!(
        pieces(&line),
        vec![
            ("  ".into(), false),
            ("a".into(), true),
            ("bc…".into(), false)
        ]
    );
}

#[test]
fn a_search_row_has_its_icon_behind_the_pointer() {
    let marks = RowMarks {
        icons: true,
        favorite: false,
        inside: false,
    };
    let line = result_row("src/main.rs", false, true, &vec![0], marks, HERE);
    let shown: Vec<&str> = line.spans.iter().map(|s| s.text.as_str()).collect();
    assert_eq!(shown, ["▌ ", "\u{f121} ", "s", "rc/main.rs"]);
    assert_eq!(line.tone, Tone::Current);
}

#[test]
fn the_tab_of_the_current_mode_stands_out() {
    let tabs = mode_tabs(tadoru::cli::Mode::Recent);
    let shown: String = tabs.iter().map(|s| s.text.as_str()).collect();
    assert_eq!(shown, "[dirs|files|recent|favorites|browse] ");
    let marked: Vec<&str> = tabs
        .iter()
        .filter(|s| s.tone.style().underlined && s.tone.style().bold)
        .map(|s| s.text.as_str())
        .collect();
    assert_eq!(marked, ["recent"]);
}

#[test]
fn an_unreadable_directory_is_said_to_be_so() {
    assert_eq!(list_dir(None, HERE), ["(unreadable)"]);
    assert!(list_dir(Some(Vec::new()), HERE).is_empty());
}

#[test]
fn the_literal_form_of_a_windows_path_is_dropped() {
    assert_eq!(strip_verbatim(r"\\?\C:\Users"), r"C:\Users");
    assert_eq!(strip_verbatim(r"\\?\UNC\server\share"), r"\\server\share");
    assert_eq!(strip_verbatim("/home"), "/home");
}
