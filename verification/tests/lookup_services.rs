use api::error::ApiError;
use api::host::Host;
use api::kallsyms::kallsyms_symbol_exists;
use api::log::{log_message, LogLevel};
use api::params::get_param_value;
use api::syscalls::{
    get_syscall_declaration, get_syscall_id, get_syscall_name, hex_string, SyscallParam,
};

fn pointer_param(name: &str) -> SyscallParam {
    SyscallParam { name: name.to_string(), is_pointer: true }
}

fn host_with_syscall_table() -> Host {
    let mut host = Host::new();
    host.install_syscall(428, "open_tree", Vec::new());
    host.install_syscall(
        59,
        "execve",
        vec![pointer_param("filename"), pointer_param("argv"), pointer_param("envp")],
    );
    host
}

#[test]
fn unknown_syscall_id_gets_a_synthesized_hex_name() {
    let host = host_with_syscall_table();
    assert_eq!(get_syscall_name(&host, 1337).unwrap(), "syscall_539");
    assert_eq!(get_syscall_name(&host, 0).unwrap(), "syscall_0");
    assert_eq!(get_syscall_name(&host, 255).unwrap(), "syscall_ff");
    assert_eq!(get_syscall_name(&host, u16::MAX).unwrap(), "syscall_ffff");
}

#[test]
fn hex_rendering_matches_known_values() {
    assert_eq!(hex_string(0), "0");
    assert_eq!(hex_string(9), "9");
    assert_eq!(hex_string(10), "a");
    assert_eq!(hex_string(0x539), "539");
    assert_eq!(hex_string(0x1000), "1000");
    assert_eq!(hex_string(0xffff), "ffff");
}

#[test]
fn known_syscall_ids_resolve_to_their_names() {
    let host = host_with_syscall_table();
    assert_eq!(get_syscall_name(&host, 428).unwrap(), "open_tree");
    assert_eq!(get_syscall_id(&host, "open_tree").unwrap(), 428);
    assert_eq!(get_syscall_id(&host, "foobar"), Err(ApiError::NotFound));
}

#[test]
fn syscall_declarations_keep_parameter_order_and_pointerness() {
    let host = host_with_syscall_table();
    let decl = get_syscall_declaration(&host, "execve").unwrap();
    assert_eq!(decl.name, "execve");
    assert_eq!(decl.params.len(), 3);
    assert_eq!(decl.params[0].name, "filename");
    assert!(decl.params[0].is_pointer);
    assert_eq!(decl.params[1].name, "argv");
    assert_eq!(decl.params[2].name, "envp");

    assert!(get_syscall_declaration(&host, "foobar").is_err());
    assert_eq!(
        get_syscall_declaration(&host, "foobar").err(),
        Some(ApiError::NotFound)
    );
}

#[test]
fn kernel_symbols_read_as_present_or_absent() {
    let mut host = Host::new();
    host.install_symbol("socket_file_ops");
    assert!(!kallsyms_symbol_exists(
        &host,
        "abcde_this_symbol_does_not_exist"
    ));
    assert!(kallsyms_symbol_exists(&host, "socket_file_ops"));
}

#[test]
fn parameters_come_back_whole_or_truncated() {
    let mut host = Host::new();
    host.install_param("param-key", "param-value");

    assert_eq!(get_param_value(&host, "param-key", 32).unwrap(), "param-value");
    assert_eq!(get_param_value(&host, "param-key", 5).unwrap(), "param");
    assert_eq!(
        get_param_value(&host, "non-existing-param", 32),
        Err(ApiError::NotFound)
    );
}

#[test]
fn log_lines_append_in_program_order() {
    let mut host = Host::new();
    log_message(&mut host, LogLevel::Error, "boundary trouble");
    log_message(&mut host, LogLevel::Info, "testing perf array");
    log_message(&mut host, LogLevel::Trace, "done");

    assert_eq!(host.log.len(), 3);
    assert_eq!(host.log[0].level, 0);
    assert_eq!(host.log[0].message, "boundary trouble");
    assert_eq!(host.log[1].level, 2);
    assert_eq!(host.log[1].message, "testing perf array");
    assert_eq!(host.log[2].level, 4);
    assert_eq!(host.log[2].message, "done");
}
