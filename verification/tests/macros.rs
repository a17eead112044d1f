use embassy_core::macros::{
    check_signature, choose_entry, choose_executor, expand, run, Arch, Args, Flavor, MainBody,
    MainError, MainReturn, Output, Signature, DEFAULT_EXECUTOR,
};

fn good_signature() -> Signature {
    Signature {
        is_async: true,
        generic_params: 0,
        has_where_clause: false,
        has_abi: false,
        is_variadic: false,
        output: Output::Default,
        inputs: 1,
    }
}

fn no_args() -> Args {
    Args { entry: None, executor: None, stack_size: None }
}

#[test]
fn the_targets() {
    assert_eq!(Arch::avr().default_entry, Some("avr_device::entry"));
    assert_eq!(Arch::riscv().default_entry, Some("riscv_rt::entry"));
    assert_eq!(Arch::cortex_m().default_entry, Some("cortex_m_rt::entry"));
    assert_eq!(Arch::wasm().default_entry, Some("wasm_bindgen::prelude::wasm_bindgen(start)"));
    for arch in [Arch::cortex_ar(), Arch::spin(), Arch::hosted(), Arch::tock(), Arch::unspecified()] {
        assert_eq!(arch.default_entry, None);
    }
    for arch in [Arch::avr(), Arch::riscv(), Arch::cortex_m(), Arch::cortex_ar(), Arch::spin()] {
        assert_eq!(arch.flavor, Flavor::Standard);
        assert!(!arch.executor_required);
    }
    assert_eq!(Arch::hosted().flavor, Flavor::Standard);
    assert_eq!(Arch::wasm().flavor, Flavor::Wasm);
    assert_eq!(Arch::tock().flavor, Flavor::Tock);
    assert_eq!(Arch::unspecified().flavor, Flavor::Standard);
    assert!(Arch::unspecified().executor_required);
    assert!(!Arch::wasm().executor_required);
    assert!(!Arch::tock().executor_required);
    assert!(!Arch::hosted().executor_required);
}

#[test]
fn a_good_signature_has_no_errors() {
    assert_eq!(check_signature(&good_signature()), vec![]);
    for output in [Output::Default, Output::Unit, Output::Never] {
        assert_eq!(check_signature(&Signature { output, ..good_signature() }), vec![]);
    }
}

#[test]
fn each_flaw_of_a_signature_is_reported() {
    let good = good_signature();
    assert_eq!(check_signature(&Signature { is_async: false, ..good }), vec![MainError::NotAsync]);
    assert_eq!(check_signature(&Signature { generic_params: 2, ..good }), vec![MainError::Generic]);
    assert_eq!(
        check_signature(&Signature { has_where_clause: true, ..good }),
        vec![MainError::WhereClause]
    );
    assert_eq!(check_signature(&Signature { has_abi: true, ..good }), vec![MainError::Abi]);
    assert_eq!(check_signature(&Signature { is_variadic: true, ..good }), vec![MainError::Variadic]);
    assert_eq!(
        check_signature(&Signature { output: Output::Other, ..good }),
        vec![MainError::ReturnType]
    );
    assert_eq!(check_signature(&Signature { inputs: 0, ..good }), vec![MainError::ArgumentCount]);
    assert_eq!(check_signature(&Signature { inputs: 2, ..good }), vec![MainError::ArgumentCount]);
}

#[test]
fn flaws_are_reported_in_a_fixed_order() {
    let bad = Signature {
        is_async: false,
        generic_params: 1,
        has_where_clause: true,
        has_abi: true,
        is_variadic: true,
        output: Output::Other,
        inputs: 3,
    };
    assert_eq!(
        check_signature(&bad),
        vec![
            MainError::NotAsync,
            MainError::Generic,
            MainError::WhereClause,
            MainError::Abi,
            MainError::Variadic,
            MainError::ReturnType,
            MainError::ArgumentCount,
        ]
    );
}

#[test]
fn the_messages() {
    assert_eq!(MainError::NotAsync.message(), Some("main function must be async"));
    assert_eq!(MainError::Generic.message(), Some("main function must not be generic"));
    assert_eq!(
        MainError::WhereClause.message(),
        Some("main function must not have `where` clauses")
    );
    assert_eq!(MainError::Abi.message(), Some("main function must not have an ABI qualifier"));
    assert_eq!(MainError::Variadic.message(), Some("main function must not be variadic"));
    assert_eq!(
        MainError::ReturnType.message(),
        Some("main function must either not return a value, return `()` or return `!`")
    );
    assert_eq!(
        MainError::ArgumentCount.message(),
        Some("main function must have 1 argument: the spawner.")
    );
    let required = MainError::ExecutorRequired.message().unwrap();
    assert!(required.starts_with("No architecture selected for embassy-executor."));
    assert!(required.ends_with("executor = \"some_crate::Executor\")]"));
    assert_eq!(required.lines().count(), 4);
    let stack = MainError::StackSize.message().unwrap();
    assert!(stack.starts_with("No stack size specified for `tock` arch."));
    assert!(stack.ends_with("`#[embassy_executor::main(stack_size = 3000)]`"));
    assert_eq!(stack.lines().count(), 2);
    assert_eq!(MainError::Arguments.message(), None);
    assert_eq!(MainError::EntryTokens.message(), None);
    assert_eq!(MainError::ExecutorTokens.message(), None);
}

#[test]
fn the_entry_of_the_user_goes_before_that_of_the_target() {
    assert_eq!(choose_entry(None, None), None);
    assert_eq!(choose_entry(None, Some("riscv_rt::entry")), Some("riscv_rt::entry"));
    assert_eq!(choose_entry(Some("my::entry"), Some("riscv_rt::entry")), Some("my::entry"));
    assert_eq!(choose_entry(Some("my::entry"), None), Some("my::entry"));
}

#[test]
fn an_empty_entry_asks_for_none() {
    assert_eq!(choose_entry(Some(""), Some("riscv_rt::entry")), None);
    assert_eq!(choose_entry(Some(""), None), None);
    assert_eq!(choose_entry(None, Some("")), None);
}

#[test]
fn the_executor_of_the_user_goes_before_the_default_one() {
    assert_eq!(DEFAULT_EXECUTOR, "::embassy_executor::Executor");
    assert_eq!(choose_executor(None, false), "::embassy_executor::Executor");
    assert_eq!(choose_executor(None, true), "");
    assert_eq!(choose_executor(Some("my::Executor"), false), "my::Executor");
    assert_eq!(choose_executor(Some("my::Executor"), true), "my::Executor");
}

#[test]
fn a_plain_expansion() {
    let args = no_args();
    let arch = Arch::cortex_m();
    let out = run(Some(&args), &good_signature(), &arch);
    assert_eq!(out.errors, vec![]);
    assert_eq!(out.entry, Some("cortex_m_rt::entry"));
    assert_eq!(out.executor, Some("::embassy_executor::Executor"));
    assert_eq!(out.stack_size, None);
    assert_eq!(out.main_return, MainReturn::Never);
    assert_eq!(out.main_body, MainBody::Standard);
}

#[test]
fn the_arguments_of_the_user_are_taken() {
    let args = Args {
        entry: Some("my_rt::entry".to_string()),
        executor: Some("my_crate::Executor".to_string()),
        stack_size: Some(0x3000),
    };
    let arch = Arch::cortex_m();
    let out = run(Some(&args), &good_signature(), &arch);
    assert_eq!(out.errors, vec![]);
    assert_eq!(out.entry, Some("my_rt::entry"));
    assert_eq!(out.executor, Some("my_crate::Executor"));
    // Only the Tock entry declares a stack size.
    assert_eq!(out.stack_size, None);
    assert_eq!(out.main_body, MainBody::Standard);
}

#[test]
fn the_browser_entry() {
    let args = no_args();
    let arch = Arch::wasm();
    let out = run(Some(&args), &good_signature(), &arch);
    assert_eq!(out.errors, vec![]);
    assert_eq!(out.entry, Some("wasm_bindgen::prelude::wasm_bindgen(start)"));
    assert_eq!(out.main_return, MainReturn::WasmResult);
    assert_eq!(out.main_body, MainBody::Wasm);
}

#[test]
fn the_tock_entry_needs_a_stack_size() {
    let arch = Arch::tock();
    let args = Args { stack_size: Some(0x3000), ..no_args() };
    let out = run(Some(&args), &good_signature(), &arch);
    assert_eq!(out.errors, vec![]);
    assert_eq!(out.entry, None);
    assert_eq!(out.stack_size, Some(0x3000));
    assert_eq!(out.main_return, MainReturn::TockResult);
    assert_eq!(out.main_body, MainBody::Tock);

    let args = no_args();
    let out = run(Some(&args), &good_signature(), &arch);
    assert_eq!(out.errors, vec![MainError::StackSize]);
    assert_eq!(out.stack_size, None);
    assert_eq!(out.main_return, MainReturn::TockResult);
    assert_eq!(out.main_body, MainBody::Halt);
}

#[test]
fn an_executor_has_to_be_named_where_no_target_is_chosen() {
    let arch = Arch::unspecified();
    let args = no_args();
    let out = run(Some(&args), &good_signature(), &arch);
    assert_eq!(out.errors, vec![MainError::ExecutorRequired]);
    assert_eq!(out.executor, Some(""));
    assert_eq!(out.main_body, MainBody::Halt);

    let args = Args { executor: Some("my_crate::Executor".to_string()), ..no_args() };
    let out = run(Some(&args), &good_signature(), &arch);
    assert_eq!(out.errors, vec![]);
    assert_eq!(out.executor, Some("my_crate::Executor"));
    assert_eq!(out.main_body, MainBody::Standard);
}

#[test]
fn text_that_is_no_token_sequence_is_refused() {
    let arch = Arch::cortex_m();
    let args = Args { entry: Some("my_rt::entry(".to_string()), ..no_args() };
    let out = run(Some(&args), &good_signature(), &arch);
    assert_eq!(out.errors, vec![MainError::EntryTokens]);
    assert_eq!(out.entry, None);
    assert_eq!(out.executor, Some("::embassy_executor::Executor"));
    assert_eq!(out.main_body, MainBody::Halt);

    let args = Args { executor: Some("my_crate::Executor)".to_string()), ..no_args() };
    let out = run(Some(&args), &good_signature(), &arch);
    assert_eq!(out.errors, vec![MainError::ExecutorTokens]);
    assert_eq!(out.entry, Some("cortex_m_rt::entry"));
    assert_eq!(out.executor, None);
    assert_eq!(out.main_body, MainBody::Halt);
}

#[test]
fn unreadable_arguments_count_as_none_given() {
    let arch = Arch::tock();
    let out = run(None, &good_signature(), &arch);
    assert_eq!(out.errors, vec![MainError::Arguments, MainError::StackSize]);
    assert_eq!(out.entry, None);
    assert_eq!(out.executor, Some("::embassy_executor::Executor"));
    assert_eq!(out.main_body, MainBody::Halt);

    let arch = Arch::riscv();
    let out = run(None, &good_signature(), &arch);
    assert_eq!(out.errors, vec![MainError::Arguments]);
    assert_eq!(out.entry, Some("riscv_rt::entry"));
    assert_eq!(out.main_return, MainReturn::Never);
    assert_eq!(out.main_body, MainBody::Halt);
}

#[test]
fn everything_wrong_at_once() {
    let bad = Signature {
        is_async: false,
        generic_params: 1,
        has_where_clause: false,
        has_abi: false,
        is_variadic: false,
        output: Output::Other,
        inputs: 0,
    };
    let arch = Arch { default_entry: None, flavor: Flavor::Tock, executor_required: true };
    let args = Args { entry: Some("x::y".to_string()), ..no_args() };
    let out = expand(Some(&args), &bad, &arch, false, false);
    assert_eq!(
        out.errors,
        vec![
            MainError::NotAsync,
            MainError::Generic,
            MainError::ReturnType,
            MainError::ArgumentCount,
            MainError::EntryTokens,
            MainError::ExecutorRequired,
            MainError::ExecutorTokens,
            MainError::StackSize,
        ]
    );
    assert_eq!(out.entry, None);
    assert_eq!(out.executor, None);
    assert_eq!(out.stack_size, None);
    assert_eq!(out.main_return, MainReturn::TockResult);
    assert_eq!(out.main_body, MainBody::Halt);
}

#[test]
fn the_answer_about_an_entry_that_is_not_asked_for_does_not_matter() {
    let arch = Arch::hosted();
    let args = no_args();
    for entry_lexes in [false, true] {
        let out = expand(Some(&args), &good_signature(), &arch, entry_lexes, true);
        assert_eq!(out.errors, vec![]);
        assert_eq!(out.entry, None);
        assert_eq!(out.main_body, MainBody::Standard);
    }
}
