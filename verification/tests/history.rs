use fastgpt::history::{History, HISTORY_WINDOW};

fn log_of(n: usize) -> History {
    let mut h = History::new();
    for i in 0..n {
        h.append(format!("q{}", i), format!("a{}", i));
    }
    h
}

#[test]
fn append_keeps_order_and_clear_empties() {
    let mut h = log_of(3);
    let all = h.entries();
    assert_eq!(all.len(), 3);
    assert_eq!(all[0].question, "q0");
    assert_eq!(all[2].answer, "a2");
    h.clear();
    assert_eq!(h.len(), 0);
}

#[test]
fn windowed_returns_the_most_recent_in_order() {
    let h = log_of(8);
    let w = h.windowed(HISTORY_WINDOW);
    assert_eq!(w.len(), 5);
    assert_eq!(w[0].question, "q3");
    assert_eq!(w[4].question, "q7");
}

#[test]
fn windowed_returns_everything_when_short() {
    let h = log_of(2);
    let w = h.windowed(HISTORY_WINDOW);
    assert_eq!(w.len(), 2);
    assert_eq!(w[0].question, "q0");
    assert_eq!(w[1].question, "q1");
}
