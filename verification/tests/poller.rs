use poor_downloader::poller::{
    handle_background_task, initial_status_config, status_queries, task_for_operation,
    BackgroundTask, Operation, RpcCall, StatusQuery,
};
use poor_downloader::table::StatusConfig;

fn gids() -> Vec<String> {
    vec!["a1".to_string(), "b2".to_string()]
}

#[test]
fn initial_filter_is_active_and_waiting() {
    assert_eq!(
        initial_status_config(),
        StatusConfig { downloading: true, waiting: true, finished: false }
    );
}

#[test]
fn operations_become_requests() {
    assert_eq!(task_for_operation(Operation::Pause, gids()), BackgroundTask::Pause(gids()));
    assert_eq!(task_for_operation(Operation::Unpause, gids()), BackgroundTask::Unpause(gids()));
    assert_eq!(task_for_operation(Operation::Remove, gids()), BackgroundTask::Remove(gids()));
}

#[test]
fn new_filter_replaces_old_one() {
    let mut config = initial_status_config();
    let new = StatusConfig { downloading: false, waiting: false, finished: true };
    let calls = handle_background_task(&mut config, BackgroundTask::UpdateStatusConfig(new));
    assert!(calls.is_empty());
    assert_eq!(config, new);
}

#[test]
fn unpause_calls_each_gid() {
    let mut config = initial_status_config();
    let calls = handle_background_task(&mut config, BackgroundTask::Unpause(gids()));
    assert_eq!(calls, vec![RpcCall::Unpause("a1".to_string()), RpcCall::Unpause("b2".to_string())]);
    assert_eq!(config, initial_status_config());
}

#[test]
fn pause_and_remove_both_pause() {
    let mut config = initial_status_config();
    let expected = vec![RpcCall::Pause("a1".to_string()), RpcCall::Pause("b2".to_string())];
    assert_eq!(handle_background_task(&mut config, BackgroundTask::Pause(gids())), expected);
    assert_eq!(handle_background_task(&mut config, BackgroundTask::Remove(gids())), expected);
    assert!(handle_background_task(&mut config, BackgroundTask::Remove(vec![])).is_empty());
}

#[test]
fn queries_follow_filter_in_order() {
    let all = StatusConfig { downloading: true, waiting: true, finished: true };
    assert_eq!(
        status_queries(&all),
        vec![
            StatusQuery::TellActive,
            StatusQuery::TellWaiting { offset: 0, num: 99 },
            StatusQuery::TellStopped { offset: 0, num: 99 },
        ]
    );
    assert_eq!(
        status_queries(&initial_status_config()),
        vec![StatusQuery::TellActive, StatusQuery::TellWaiting { offset: 0, num: 99 }]
    );
    let stopped = StatusConfig { downloading: false, waiting: false, finished: true };
    assert_eq!(status_queries(&stopped), vec![StatusQuery::TellStopped { offset: 0, num: 99 }]);
    assert!(status_queries(&StatusConfig::default()).is_empty());
}
