use tqdm_rs::create_bar;
use tqdm_rs::percentage;
use tqdm_rs::render_text;
use tqdm_rs::MessageBuffer;
use tqdm_rs::Tqdm;

const CLEAR5: &str = "\u{1b}[1A\r     \r";
const CLEAR3: &str = "\u{1b}[1A\r   \r";

#[test]
fn manual_scenario_full() {
    let mut buf = MessageBuffer::new();
    let mut t = Tqdm::manual(100);
    for _ in 0..10 {
        let _ = t.update(&mut buf, 10);
    }
    assert_eq!(t.get_current_amount(), 100);
    assert_eq!(t.get_total_amount(), 100);
    assert_eq!(percentage(100, 100), 100);
    assert_eq!(
        create_bar(100, 100).as_str(),
        "100% [####################] 100/100"
    );
}

#[test]
fn manual_overshoot_clamps() {
    let mut buf = MessageBuffer::new();
    let mut t = Tqdm::manual(3);
    let _ = t.update(&mut buf, 5);
    assert_eq!(t.get_current_amount(), 3);
    assert_eq!(percentage(3, 3), 100);
}

#[test]
fn update_sums_clamped() {
    let mut buf = MessageBuffer::new();
    let mut t = Tqdm::manual(100);
    let _ = t.update(&mut buf, 30);
    let _ = t.update(&mut buf, 30);
    assert_eq!(t.get_current_amount(), 60);
    let _ = t.update(&mut buf, 50);
    assert_eq!(t.get_current_amount(), 100);
    let _ = t.update(&mut buf, 1);
    assert_eq!(t.get_current_amount(), 100);
}

#[test]
fn percentage_zero_total() {
    assert_eq!(percentage(0, 0), 0);
}

#[test]
fn percentage_rounds_half_up() {
    assert_eq!(percentage(1, 8), 13);
    assert_eq!(percentage(1, 3), 33);
    assert_eq!(percentage(2, 3), 67);
    assert_eq!(percentage(47, 100), 47);
}

#[test]
fn percentage_bounds() {
    assert_eq!(percentage(0, 7), 0);
    assert_eq!(percentage(7, 7), 100);
}

#[test]
fn bar_filled_segments() {
    let nine = create_bar(47, 100);
    assert_eq!(nine.chars().filter(|c| *c == '#').count(), 9);
    assert_eq!(nine.as_str(), " 47% [#########           ]  47/100");
    let full = create_bar(100, 100);
    assert_eq!(full.chars().filter(|c| *c == '#').count(), 20);
    let empty = create_bar(0, 10);
    assert_eq!(empty.chars().filter(|c| *c == '#').count(), 0);
}

#[test]
fn bar_field_width() {
    assert_eq!(create_bar(7, 100).as_str(), "  7% [#                   ]   7/100");
    assert_eq!(create_bar(0, 10).as_str(), "  0% [                    ]  0/10");
}

#[test]
fn empty_auto_bar() {
    let t = Tqdm::new(0);
    assert_eq!(t.get_current_amount(), 0);
    assert_eq!(t.get_total_amount(), 0);
    assert_eq!(create_bar(0, 0).as_str(), "  0% [                    ] 0/0");
    assert_eq!(render_text(0, 0, "", 0, 0).as_str(), "  0% [                    ] 0/0\n");
}

#[test]
fn message_last_write_wins() {
    let mut buf = MessageBuffer::new();
    tqdm_rs::write(&mut buf, "first");
    tqdm_rs::write(&mut buf, "second");
    assert_eq!(buf.take_and_clear().as_str(), "second");
    assert_eq!(buf.take_and_clear().as_str(), "");
}

#[test]
fn update_consumes_message() {
    let mut buf = MessageBuffer::new();
    let mut t = Tqdm::manual(10);
    tqdm_rs::write(&mut buf, "note");
    let _ = t.update(&mut buf, 1);
    assert_eq!(buf.take_and_clear().as_str(), "");
}

#[test]
fn render_consumes_message_once() {
    let first = render_text(0, 10, "hello", 0, 5);
    let expected_first = format!(
        "\n\n{}{}hello\n  0% [                    ]  0/10\n",
        CLEAR5, CLEAR5
    );
    assert_eq!(first.as_str(), expected_first.as_str());
    let second = render_text(1, 10, "", 2, 5);
    let expected_second = format!("{}{} 10% [##                  ]  1/10\n", CLEAR5, CLEAR5);
    assert_eq!(second.as_str(), expected_second.as_str());
}

#[test]
fn render_multiline_message() {
    let frame = render_text(5, 10, "a\nb", 2, 3);
    let expected = format!("{}{}a\nb\n 50% [##########          ]  5/10\n", CLEAR3, CLEAR3);
    assert_eq!(frame.as_str(), expected.as_str());
}

#[test]
fn auto_step_advances() {
    let mut buf = MessageBuffer::new();
    let mut t = Tqdm::new(3);
    let mut drawn: usize = 0;
    for _ in 0..3 {
        if t.step(&mut buf).is_ok() {
            drawn += 1;
        }
    }
    assert_eq!(t.get_current_amount(), drawn);
    let before = t.get_current_amount();
    let _ = t.finish(&mut buf);
    assert_eq!(t.get_current_amount(), before);
    assert_eq!(t.get_total_amount(), 3);
}

#[test]
fn terminal_error_message() {
    let e = tqdm_rs::TerminalUnavailable;
    assert_eq!(e.message().as_str(), "Unable to get terminal size.");
}
