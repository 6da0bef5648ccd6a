use zenohc::handles::z_task_attr_t;
use zenohc::liveliness::{
    zc_liveliness_declaration_options_default, zc_liveliness_declaration_options_t,
    zc_liveliness_get_options_default, zc_liveliness_get_options_t,
    zc_liveliness_subscriber_options_default, zc_liveliness_subscriber_options_t,
};

#[test]
fn get_options_default_timeout() {
    let mut o = zc_liveliness_get_options_t { timeout_ms: 1 };
    zc_liveliness_get_options_default(&mut o);
    assert_eq!(o.timeout_ms, 10000);
}

#[test]
fn declaration_and_subscriber_defaults() {
    let mut d = zc_liveliness_declaration_options_t { _dummy: 9 };
    zc_liveliness_declaration_options_default(&mut d);
    assert_eq!(d._dummy, 0);
    let mut s = zc_liveliness_subscriber_options_t { _dummy: 3 };
    zc_liveliness_subscriber_options_default(&mut s);
    assert_eq!(s._dummy, 0);
}

#[test]
fn task_attr_is_plain_data() {
    let a = z_task_attr_t(5);
    let b = a;
    assert_eq!(a, b);
    assert_eq!(b.0, 5);
}
