use lb_inter_node_exporter::attach::{get_xdp_mode, xdp_mode_named, XdpMode};

#[test]
fn names_in_lower_case_choose_their_mode() {
    assert_eq!(xdp_mode_named("native"), XdpMode::Native);
    assert_eq!(xdp_mode_named("hw"), XdpMode::Hardware);
    assert_eq!(xdp_mode_named("skb"), XdpMode::Generic);
}

#[test]
fn other_names_leave_the_choice_to_the_kernel() {
    assert_eq!(xdp_mode_named(""), XdpMode::Default);
    assert_eq!(xdp_mode_named("auto"), XdpMode::Default);
    assert_eq!(xdp_mode_named("Native"), XdpMode::Default);
    assert_eq!(xdp_mode_named("native "), XdpMode::Default);
    assert_eq!(xdp_mode_named("hardware"), XdpMode::Default);
}

#[test]
fn configured_name_is_read_whatever_its_case() {
    assert_eq!(get_xdp_mode("native"), XdpMode::Native);
    assert_eq!(get_xdp_mode("NATIVE"), XdpMode::Native);
    assert_eq!(get_xdp_mode("Hw"), XdpMode::Hardware);
    assert_eq!(get_xdp_mode("SKB"), XdpMode::Generic);
    assert_eq!(get_xdp_mode("sKb"), XdpMode::Generic);
}

#[test]
fn empty_or_unknown_configured_name_is_the_default() {
    assert_eq!(get_xdp_mode(""), XdpMode::Default);
    assert_eq!(get_xdp_mode("generic"), XdpMode::Default);
    assert_eq!(get_xdp_mode("DRV"), XdpMode::Default);
}
