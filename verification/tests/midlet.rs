use rage_of_mages::game::M;
use rage_of_mages::midlet::quit;

#[test]
fn quitting_stops_the_loop_and_enters_state_100() {
    let mut m = M::default();
    m.lifecycle.g = 1;
    quit(&mut m);
    assert!(m.lifecycle.quit_flag);
    assert_eq!(m.lifecycle.g, 100);
}
