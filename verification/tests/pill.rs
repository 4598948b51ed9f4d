use gettype::pill::PillFade;

#[test]
fn single_fade_hides() {
    let mut p = PillFade::new();
    let g = p.fade_out();
    assert!(p.hide_due(g));
}

#[test]
fn show_voids_pending_hide() {
    let mut p = PillFade::new();
    let g = p.fade_out();
    p.show();
    assert!(!p.hide_due(g));
}

#[test]
fn second_fade_wins() {
    let mut p = PillFade::new();
    let first = p.fade_out();
    let second = p.fade_out();
    assert!(!p.hide_due(first));
    assert!(p.hide_due(second));
}

#[test]
fn generation_wraps() {
    let mut p = PillFade { generation: u64::MAX };
    assert_eq!(p.fade_out(), 0);
}

#[test]
fn burst_hides_once_at_the_last_fade() {
    let mut p = PillFade { generation: u64::MAX - 2 };
    let a = p.fade_out();
    p.show();
    let b = p.fade_out();
    let c = p.fade_out();
    p.show();
    let d = p.fade_out();
    let due: Vec<bool> = [a, b, c, d].iter().map(|&g| p.hide_due(g)).collect();
    assert_eq!(due, vec![false, false, false, true]);
}
