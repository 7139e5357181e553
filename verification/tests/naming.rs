use python_supervisor::naming::{
    args_identifier, background_log_names, role_log_names, sanitize_identifier, u64_to_decimal,
};

#[test]
fn sanitize_keeps_alphanumerics_and_replaces_the_rest() {
    assert_eq!(sanitize_identifier("ss_executor"), "ss_executor");
    assert_eq!(sanitize_identifier("a-b.c/d"), "a_b_c_d");
    assert_eq!(sanitize_identifier(""), "");
    assert_eq!(sanitize_identifier("serveur numéro 1"), "serveur_numéro_1");
}

#[test]
fn identifier_comes_from_the_second_argument() {
    let args = vec![String::from("-m"), String::from("server")];
    assert_eq!(args_identifier(&args), "server");
    let args = vec![String::from("-m"), String::from("my module!")];
    assert_eq!(args_identifier(&args), "my_module_");
}

#[test]
fn identifier_without_arguments_is_the_fixed_marker() {
    let args: Vec<String> = Vec::new();
    assert_eq!(args_identifier(&args), "no_args");
    let args = vec![String::from("script.py")];
    assert_eq!(args_identifier(&args), "no_args");
}

#[test]
fn decimal_rendering_is_exact() {
    assert_eq!(u64_to_decimal(0), "0");
    assert_eq!(u64_to_decimal(7), "7");
    assert_eq!(u64_to_decimal(1234567890), "1234567890");
    assert_eq!(u64_to_decimal(u64::MAX), "18446744073709551615");
}

#[test]
fn role_launches_reuse_the_same_log_pair() {
    let args = vec![String::from("-m"), String::from("server")];
    let first = role_log_names(&args);
    assert_eq!(first.output_name, "python_bg_server.log");
    assert_eq!(first.error_name, "python_bg_server_error.log");
    // A relaunch of the same role writes to exactly the same pair.
    let second = role_log_names(&args);
    assert_eq!(second.output_name, first.output_name);
    assert_eq!(second.error_name, first.error_name);
}

#[test]
fn background_launches_get_distinct_timestamped_pairs() {
    let args = vec![String::from("-m"), String::from("server")];
    let first = background_log_names(&args, 1700000000);
    let second = background_log_names(&args, 1700000001);
    assert_eq!(first.output_name, "python_bg_server_1700000000.log");
    assert_eq!(first.error_name, "python_bg_server_1700000000_error.log");
    assert_eq!(second.output_name, "python_bg_server_1700000001.log");
    assert_eq!(second.error_name, "python_bg_server_1700000001_error.log");
    assert_ne!(first.output_name, second.output_name);
    assert_ne!(first.error_name, second.error_name);
}
