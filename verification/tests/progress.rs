use bima::progress::ProgressBar;
use bima::progress::UpdateState;
use bima::progress::Wrt;
use bima::progress::calc_speed;
use bima::progress::format_bar;
use bima::progress::format_bar_start;

struct Sink {
    lines: Vec<String>,
}

impl Wrt for Sink {
    fn write(&mut self, s: &str) {
        self.lines.push(s.to_string());
    }
}

fn sink() -> Sink {
    Sink { lines: Vec::new() }
}

#[test]
fn speed_is_samples_per_second() {
    assert_eq!(calc_speed(7, 200), 35);
    assert_eq!(calc_speed(1000, 1000), 1000);
    assert_eq!(calc_speed(3, 1000), 3);
}

#[test]
fn speed_saturates_when_no_time_elapsed() {
    assert_eq!(calc_speed(0, 0), u64::MAX);
    assert_eq!(calc_speed(12345, 0), u64::MAX);
}

#[test]
fn start_line_draws_an_empty_bar() {
    assert_eq!(format_bar_start(10), "\r[          ] 0% [??? it/s]");
    assert_eq!(format_bar_start(0), "\r[] 0% [??? it/s]");
}

#[test]
fn bar_line_shows_fill_percent_and_speed() {
    assert_eq!(format_bar(10, 5, 1234, 7, 200), "\r[#####     ] 12.34% [35 it/s]");
    assert_eq!(format_bar(4, 4, 10000, 1, 1000), "\r[####] 100.00% [1 it/s]");
    assert_eq!(format_bar(4, 0, 0, 1, 0), "\r[    ] 0.00% [??? it/s]");
}

#[test]
fn update_is_throttled_inside_the_render_window() {
    let mut bar = ProgressBar::new(sink(), 10, 100, 0);
    // within 100 ms of the last render: silent
    assert_eq!(bar.update(5, 50), UpdateState::Nothing);
    assert_eq!(bar.update(6, 100), UpdateState::Nothing);
    // more than 100 ms later: a render, counting the samples since
    assert_eq!(bar.update(7, 101), UpdateState::Print(3));
    // the counter was reset by the render
    assert_eq!(bar.update(8, 250), UpdateState::Print(1));
}

#[test]
fn reaching_the_total_fires_done_exactly_once() {
    let mut bar = ProgressBar::new(sink(), 10, 100, 0);
    assert_eq!(bar.update(40, 10), UpdateState::Nothing);
    // completion wins over throttling
    assert_eq!(bar.update(100, 20), UpdateState::Done);
    // and never fires again for this reporter
    assert_eq!(bar.update(100, 30), UpdateState::Nothing);
    assert_eq!(bar.update(100, 500), UpdateState::Print(4));
    assert_eq!(bar.update(200, 9999), UpdateState::Print(1));
}

#[test]
fn renders_reach_the_injected_sink() {
    let mut bar = ProgressBar::new(sink(), 10, 100, 0);
    bar.update(50, 200);
    bar.update(100, 300);
    // the sink saw: the start line, one throttled render, the final
    // bar, and the terminal newline
    let lines = bar.into_writer().lines;
    assert_eq!(lines.len(), 4);
    assert_eq!(lines[0], "\r[          ] 0% [??? it/s]");
    assert_eq!(lines[1], "\r[#####     ] 50.00% [5 it/s]");
    assert_eq!(lines[2], "\r[##########] 100.00% [10 it/s]");
    assert_eq!(lines[3], "\n");
}
