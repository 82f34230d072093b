use wasmer_support::exec::{
    is_relative_program, place_child_pid, split_exec_args, write_pid_bytes, PidPlacement,
};

#[test]
fn exec_args_split_on_line_breaks() {
    assert_eq!(
        split_exec_args("ls\n-la\r\n/tmp"),
        vec!["ls".to_string(), "-la".to_string(), "/tmp".to_string()]
    );
}

#[test]
fn exec_args_drop_empty_pieces() {
    assert_eq!(split_exec_args(""), Vec::<String>::new());
    assert_eq!(split_exec_args("\n\n\r"), Vec::<String>::new());
    assert_eq!(split_exec_args("\na b\n"), vec!["a b".to_string()]);
    assert_eq!(split_exec_args("single"), vec!["single".to_string()]);
}

#[test]
fn exec_relative_program_names() {
    assert!(is_relative_program("./app.wasm"));
    assert!(!is_relative_program("/bin/app"));
    assert!(!is_relative_program("app"));
    assert!(!is_relative_program("."));
    assert!(!is_relative_program("../app"));
}

#[test]
fn exec_pid_written_into_saved_stack() {
    let mut stack = vec![0u8; 16];
    // stack spans 100..200; the slot at 190 is 10 bytes below the top
    let r = write_pid_bytes(&mut stack, 190, 100, 200, &[1, 2, 3, 4]);
    assert_eq!(r, PidPlacement::Written);
    assert_eq!(stack, vec![0, 0, 0, 0, 0, 0, 1, 2, 3, 4, 0, 0, 0, 0, 0, 0]);
}

#[test]
fn exec_pid_outside_saved_part() {
    let mut stack = vec![7u8; 8];
    assert_eq!(write_pid_bytes(&mut stack, 150, 100, 200, &[1, 2, 3, 4]), PidPlacement::OutsideActiveStack);
    assert_eq!(stack, vec![7u8; 8]);
    assert_eq!(write_pid_bytes(&mut stack, 250, 100, 200, &[1, 2, 3, 4]), PidPlacement::NotOnStack);
    assert_eq!(write_pid_bytes(&mut stack, 200, 100, 200, &[1, 2, 3, 4]), PidPlacement::NotOnStack);
    assert_eq!(stack, vec![7u8; 8]);
}

#[test]
fn exec_pid_in_machine_byte_order() {
    let mut stack = vec![0u8; 8];
    let r = place_child_pid(&mut stack, 196, 0, 200, 0x0102_0304);
    assert_eq!(r, PidPlacement::Written);
    assert_eq!(&stack[4..8], &0x0102_0304u32.to_ne_bytes());
    assert_eq!(&stack[0..4], &[0, 0, 0, 0]);
}
