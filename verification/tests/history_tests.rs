use clad::history::HistoryArgs;

#[test]
fn test_history_args_default_construction() {
    let args = HistoryArgs {
        list: false,
        verbose: false,
        limit: 10,
    };

    assert!(!args.list);
    assert!(!args.verbose);
    assert_eq!(args.limit, 10);
}

#[test]
fn test_history_args_with_list() {
    let args = HistoryArgs {
        list: true,
        verbose: false,
        limit: 10,
    };

    assert!(args.list);
    assert!(!args.verbose);
    assert_eq!(args.limit, 10);
}

#[test]
fn test_history_args_with_verbose() {
    let args = HistoryArgs {
        list: false,
        verbose: true,
        limit: 10,
    };

    assert!(!args.list);
    assert!(args.verbose);
    assert_eq!(args.limit, 10);
}

#[test]
fn test_history_args_with_list_and_verbose() {
    let args = HistoryArgs {
        list: true,
        verbose: true,
        limit: 10,
    };

    assert!(args.list);
    assert!(args.verbose);
    assert_eq!(args.limit, 10);
}

#[test]
fn test_history_args_with_custom_limit() {
    let args = HistoryArgs {
        list: true,
        verbose: false,
        limit: 25,
    };

    assert!(args.list);
    assert!(!args.verbose);
    assert_eq!(args.limit, 25);
}

#[test]
fn test_history_args_with_zero_limit() {
    let args = HistoryArgs {
        list: true,
        verbose: false,
        limit: 0,
    };

    assert_eq!(args.limit, 0);
}

#[test]
fn test_history_args_with_large_limit() {
    let args = HistoryArgs {
        list: true,
        verbose: false,
        limit: 1000,
    };

    assert_eq!(args.limit, 1000);
}

#[test]
fn test_history_args_debug_format() {
    let args = HistoryArgs {
        list: true,
        verbose: false,
        limit: 15,
    };

    let debug_str = format!("{:?}", args);
    assert!(debug_str.contains("HistoryArgs"));
    assert!(debug_str.contains("list"));
    assert!(debug_str.contains("verbose"));
    assert!(debug_str.contains("limit"));
}

#[test]
fn test_history_args_limit_boundary_min() {
    let args = HistoryArgs {
        list: true,
        verbose: false,
        limit: usize::MIN,
    };

    assert_eq!(args.limit, 0);
}

#[test]
fn test_history_args_limit_boundary_max() {
    let args = HistoryArgs {
        list: true,
        verbose: false,
        limit: usize::MAX,
    };

    assert_eq!(args.limit, usize::MAX);
}

#[test]
fn test_history_default_mode() {
    let args = HistoryArgs {
        list: false,
        verbose: false,
        limit: 10,
    };

    assert!(!args.list && !args.verbose);
}

#[test]
fn test_history_list_mode() {
    let args = HistoryArgs {
        list: true,
        verbose: false,
        limit: 10,
    };

    assert!(args.list && !args.verbose);
}

#[test]
fn test_history_verbose_mode() {
    let args = HistoryArgs {
        list: false,
        verbose: true,
        limit: 10,
    };

    assert!(!args.list && args.verbose);
}

#[test]
fn test_history_list_and_verbose_mode() {
    let args = HistoryArgs {
        list: true,
        verbose: true,
        limit: 10,
    };

    assert!(args.list && args.verbose);
}

#[test]
fn test_all_fields_true_max_limit() {
    let args = HistoryArgs {
        list: true,
        verbose: true,
        limit: 100,
    };

    assert!(args.list);
    assert!(args.verbose);
    assert_eq!(args.limit, 100);
}

#[test]
fn test_all_fields_false_zero_limit() {
    let args = HistoryArgs {
        list: false,
        verbose: false,
        limit: 0,
    };

    assert!(!args.list);
    assert!(!args.verbose);
    assert_eq!(args.limit, 0);
}

#[test]
fn test_history_args_limit_1() {
    let args = HistoryArgs {
        list: true,
        verbose: false,
        limit: 1,
    };

    assert_eq!(args.limit, 1);
}

#[test]
fn test_history_args_limit_5() {
    let args = HistoryArgs {
        list: true,
        verbose: false,
        limit: 5,
    };

    assert_eq!(args.limit, 5);
}

#[test]
fn test_history_args_limit_50() {
    let args = HistoryArgs {
        list: true,
        verbose: false,
        limit: 50,
    };

    assert_eq!(args.limit, 50);
}

#[test]
fn test_history_args_limit_100() {
    let args = HistoryArgs {
        list: true,
        verbose: false,
        limit: 100,
    };

    assert_eq!(args.limit, 100);
}

#[test]
fn test_history_execute_lines_default() {
    let args = HistoryArgs {
        list: false,
        verbose: false,
        limit: 10,
    };
    let lines = args.execute();
    assert_eq!(
        lines,
        vec![
            "Hello from history command!",
            "This command will show your chat history.",
            "Use --help to see available options.",
        ]
    );
}

#[test]
fn test_history_execute_lines_list_and_verbose() {
    let args = HistoryArgs {
        list: true,
        verbose: true,
        limit: 25,
    };
    let lines = args.execute();
    assert_eq!(
        lines,
        vec![
            "Hello from history command!",
            "Listing recent history entries (limit: 25)...",
            "Verbose mode enabled - showing full details",
        ]
    );
}
