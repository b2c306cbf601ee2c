use std::io::Cursor;

use voyager::{App, Color, Command, EngineError, LinkType, Mode, StyledLine};

fn count_tagged_runs(lines: &[StyledLine]) -> usize {
    let mut n = 0;
    for line in lines {
        for span in &line.spans {
            if span.role.is_some() {
                n += 1;
            }
        }
    }
    n
}

fn count_highlighted(lines: &[StyledLine]) -> usize {
    let mut n = 0;
    for line in lines {
        for span in &line.spans {
            if span.style.bg == Color::Yellow && span.style.fg == Color::Black && span.style.bold {
                n += 1;
            }
        }
    }
    n
}

const PAGE: &str = "<html><body><p>Hello <b>world</b></p>\
<p><a href=\"/about\">About</a></p>\
<p><a href=\"/1\">one</a> and <a href=\"/2\">two</a></p>\
</body></html>";

#[test]
fn converts_page_and_indexes_links() {
    let mut app = App::new("https://example.com/x/y");
    app.load_markup(PAGE, 80).unwrap();
    assert_eq!(app.links.len(), 3);
    assert_eq!(app.links[0].url, "https://example.com/about");
    assert!(app.links[0].link_type == LinkType::Web);
    assert_eq!(app.links[1].url, "https://example.com/1");
    assert_eq!(app.links[2].url, "https://example.com/2");
    assert_eq!(app.selected_link_idx, 0);
    assert_eq!(app.scroll, 0);
    assert_eq!(app.status, "Loaded: https://example.com/x/y");
}

#[test]
fn link_count_matches_tagged_runs() {
    let mut app = App::new("https://example.com/");
    app.load_markup(PAGE, 80).unwrap();
    assert_eq!(count_tagged_runs(&app.content_lines), app.links.len());
}

#[test]
fn labels_precede_link_runs() {
    let mut app = App::new("https://example.com/");
    app.load_markup(PAGE, 80).unwrap();
    let mut labels: Vec<String> = Vec::new();
    for line in &app.content_lines {
        for (i, span) in line.spans.iter().enumerate() {
            if span.role.is_some() {
                labels.push(line.spans[i - 1].text.clone());
            }
        }
    }
    assert_eq!(labels, vec!["[0]".to_string(), "[1]".to_string(), "[2]".to_string()]);
}

#[test]
fn highlight_marks_exactly_the_selected_run() {
    let mut app = App::new("https://example.com/");
    app.load_markup(PAGE, 80).unwrap();
    for i in 0..app.links.len() {
        app.selected_link_idx = i;
        let rendered = app.render_content();
        assert_eq!(count_highlighted(&rendered), 1);
        let mut counter = 0;
        for line in &rendered {
            for span in &line.spans {
                if span.role.is_some() {
                    let highlighted = span.style.bg == Color::Yellow;
                    assert_eq!(highlighted, counter == i);
                    counter += 1;
                }
            }
        }
    }
}

#[test]
fn highlight_leaves_plain_runs_alone() {
    let mut app = App::new("https://example.com/");
    app.load_markup("<p>just text</p>", 80).unwrap();
    assert_eq!(app.links.len(), 0);
    let rendered = app.render_content();
    assert_eq!(count_highlighted(&rendered), 0);
    assert_eq!(rendered.len(), app.content_lines.len());
}

#[test]
fn resolves_relative_reference_against_base() {
    assert_eq!(
        voyager::resolve_or_literal("https://example.com/x/y", "/about"),
        "https://example.com/about"
    );
}

#[test]
fn unresolvable_reference_degrades_to_literal() {
    assert_eq!(voyager::resolve_or_literal("not a base", "/about"), "/about");
}

#[test]
fn navigate_defaults_scheme() {
    let mut app = App::new("");
    app.navigate("example.com".to_string());
    assert_eq!(app.current_url, "https://example.com");
    assert!(app.history.is_empty());
}

#[test]
fn navigate_keeps_explicit_scheme() {
    let mut app = App::new("");
    app.navigate("http://example.com/a".to_string());
    assert_eq!(app.current_url, "http://example.com/a");
}

#[test]
fn nav_nav_back_restores_first_target() {
    let mut app = App::new("https://start.example/");
    app.navigate("https://a.example/".to_string());
    app.navigate("https://b.example/".to_string());
    assert!(app.go_back());
    assert_eq!(app.current_url, "https://a.example/");
    assert_eq!(app.history, vec!["https://start.example/".to_string()]);
    assert_eq!(app.future, vec!["https://b.example/".to_string()]);
    assert!(app.go_forward());
    assert_eq!(app.current_url, "https://b.example/");
}

#[test]
fn navigate_clears_future() {
    let mut app = App::new("https://start.example/");
    app.navigate("https://a.example/".to_string());
    app.navigate("https://b.example/".to_string());
    assert!(app.go_back());
    app.navigate("https://c.example/".to_string());
    assert!(app.future.is_empty());
    assert!(!app.go_forward());
    assert_eq!(app.current_url, "https://c.example/");
}

#[test]
fn back_then_forward_is_a_round_trip() {
    let mut app = App::new("https://start.example/");
    app.load_markup(PAGE, 80).unwrap();
    app.navigate("https://a.example/".to_string());
    let current = app.current_url.clone();
    let history = app.history.clone();
    let future = app.future.clone();
    let content_before = count_tagged_runs(&app.content_lines);
    assert!(app.go_back());
    assert!(app.go_forward());
    assert_eq!(app.current_url, current);
    assert_eq!(app.history, history);
    assert_eq!(app.future, future);
    assert_eq!(count_tagged_runs(&app.content_lines), content_before);
}

#[test]
fn back_on_empty_history_only_reports() {
    let mut app = App::new("https://start.example/");
    assert!(!app.go_back());
    assert_eq!(app.current_url, "https://start.example/");
    assert_eq!(app.status, "No back history");
}

#[test]
fn selection_wraps_both_ways() {
    let mut app = App::new("https://example.com/");
    app.load_markup(PAGE, 80).unwrap();
    assert_eq!(app.links.len(), 3);
    assert_eq!(app.selected_link_idx, 0);
    app.select_next();
    app.select_next();
    app.select_next();
    app.select_next();
    assert_eq!(app.selected_link_idx, 1);
    app.selected_link_idx = 0;
    app.select_next();
    app.select_next();
    app.select_next();
    assert_eq!(app.selected_link_idx, 0);
    app.select_prev();
    assert_eq!(app.selected_link_idx, 2);
}

#[test]
fn selection_stays_parked_without_links() {
    let mut app = App::new("https://example.com/");
    app.select_next();
    assert_eq!(app.selected_link_idx, 0);
    app.select_prev();
    assert_eq!(app.selected_link_idx, 0);
}

fn png_bytes(r: u8, g: u8, b: u8) -> Vec<u8> {
    let img = image::RgbImage::from_pixel(160, 100, image::Rgb([r, g, b]));
    let dynimg = image::DynamicImage::ImageRgb8(img);
    let mut buf: Vec<u8> = Vec::new();
    dynimg
        .write_to(&mut Cursor::new(&mut buf), image::ImageFormat::Png)
        .unwrap();
    buf
}

#[test]
fn white_image_becomes_densest_glyphs() {
    let bytes = png_bytes(255, 255, 255);
    let grid = voyager::image_to_text(&bytes, 80).unwrap();
    assert_eq!(grid.len(), 25);
    for row in &grid {
        assert_eq!(row.chars().count(), 80);
        assert!(row.chars().all(|c| c == '@'));
    }
}

#[test]
fn black_image_becomes_sparsest_glyphs() {
    let bytes = png_bytes(0, 0, 0);
    let grid = voyager::image_to_text(&bytes, 80).unwrap();
    assert_eq!(grid.len(), 25);
    for row in &grid {
        assert_eq!(row.chars().count(), 80);
        assert!(row.chars().all(|c| c == ' '));
    }
}

#[test]
fn quantization_boundaries() {
    let pixels: Vec<u8> = vec![0, 19, 20, 255];
    let grid = voyager::luma_grid(&pixels, 4, 1);
    assert_eq!(grid, vec!["  `@".to_string()]);
}

#[test]
fn malformed_image_bytes_give_decode_error() {
    let mut app = App::new("https://example.com/");
    let err = app.preview_image(b"not an image", 80).unwrap_err();
    assert!(err == EngineError::Decode);
    assert!(app.image_preview.is_none());
}

#[test]
fn failed_preview_leaves_open_preview_unchanged() {
    let mut app = App::new("https://example.com/");
    let bytes = png_bytes(255, 255, 255);
    app.preview_image(&bytes, 80).unwrap();
    let before = app.image_preview.clone().unwrap();
    assert!(app.preview_image(b"broken", 80).is_err());
    assert_eq!(app.image_preview.as_ref().unwrap(), &before);
    app.close_preview();
    assert!(app.image_preview.is_none());
}

#[test]
fn decode_error_has_a_message() {
    assert_eq!(EngineError::Decode.message(), "cannot decode image");
    assert_eq!(EngineError::Parse.message(), "cannot parse page");
}

fn submit(app: &mut App, text: &str) -> Command {
    app.enter_command();
    for c in text.chars() {
        app.push_command_char(c);
    }
    app.submit_command()
}

#[test]
fn command_words_are_recognized() {
    let mut app = App::new("https://example.com/");
    assert!(matches!(submit(&mut app, "q"), Command::Quit));
    assert!(matches!(submit(&mut app, "quit"), Command::Quit));
    assert!(matches!(submit(&mut app, "b"), Command::Back));
    assert!(matches!(submit(&mut app, "back"), Command::Back));
    assert!(matches!(submit(&mut app, "f"), Command::Forward));
    assert!(matches!(submit(&mut app, "front"), Command::Forward));
    assert!(matches!(submit(&mut app, ""), Command::Nothing));
    assert!(matches!(submit(&mut app, "url"), Command::Nothing));
    assert!(app.mode == Mode::Normal);
}

#[test]
fn url_command_carries_the_address() {
    let mut app = App::new("https://example.com/");
    match submit(&mut app, "url example.org extra") {
        Command::Open(a) => assert_eq!(a, "example.org"),
        other => panic!("unexpected command: {:?}", other),
    }
}

#[test]
fn unknown_command_only_sets_status() {
    let mut app = App::new("https://example.com/");
    match submit(&mut app, "zzz now") {
        Command::Unknown(t) => assert_eq!(t, "zzz"),
        other => panic!("unexpected command: {:?}", other),
    }
    assert_eq!(app.status, "Unknown command: zzz");
    assert!(app.mode == Mode::Normal);
}

#[test]
fn command_editing_and_cancel() {
    let mut app = App::new("https://example.com/");
    app.enter_command();
    assert!(app.mode == Mode::Command);
    app.push_command_char('q');
    app.push_command_char('x');
    app.pop_command_char();
    assert_eq!(app.command_buffer, "q");
    app.cancel_command();
    assert!(app.mode == Mode::Normal);
    assert_eq!(app.command_buffer, "");
}

#[test]
fn scroll_saturates() {
    let mut app = App::new("https://example.com/");
    app.scroll_up();
    assert_eq!(app.scroll, 0);
    app.scroll_down();
    app.scroll_down();
    app.scroll_up();
    assert_eq!(app.scroll, 1);
}

#[test]
fn selected_link_follows_selection() {
    let mut app = App::new("https://example.com/");
    assert!(app.selected_link().is_none());
    app.load_markup(PAGE, 80).unwrap();
    app.select_next();
    let link = app.selected_link().unwrap();
    assert_eq!(link.url, "https://example.com/1");
}

#[test]
fn decimal_labels_render() {
    assert_eq!(voyager::usize_to_dec(0), "0");
    assert_eq!(voyager::usize_to_dec(42), "42");
    assert_eq!(voyager::usize_to_dec(1030), "1030");
}

#[test]
fn prefix_test_matches() {
    assert!(voyager::has_prefix("https://x", "https://"));
    assert!(!voyager::has_prefix("http", "http://"));
    assert!(voyager::has_prefix("abc", ""));
}

#[test]
fn load_failure_would_leave_state_untouched() {
    // html2text parses leniently, so even fragments convert; what this
    // checks is that a successful reload replaces content atomically.
    let mut app = App::new("https://example.com/");
    app.load_markup(PAGE, 80).unwrap();
    let links_before = app.links.len();
    app.load_markup("<p>replaced</p>", 80).unwrap();
    assert_eq!(app.links.len(), 0);
    assert_ne!(links_before, 0);
}
