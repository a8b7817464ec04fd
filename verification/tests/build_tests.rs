use app_builder::builds::{continues_after, extract_payload, BuildProcess, BuildState, CommandRun};
use app_builder::model::{CommandConfig, PayloadConfig, PayloadType, Status};
use app_builder::placeholders::replace_placeholders;
use app_builder::strmap::StrMap;

fn map(pairs: &[(&str, &str)]) -> StrMap {
    let mut m = StrMap::new();
    for (k, v) in pairs {
        m.insert(k.to_string(), v.to_string());
    }
    m
}

fn process(payload: StrMap) -> BuildProcess {
    BuildProcess {
        id: "b1".to_string(),
        unique_id: "u1".to_string(),
        status: Status::StartingCommand,
        current_step: 0,
        total_steps: 2,
        started_at: 0,
        end_at: 0,
        duration: 0,
        socket_token: "tok".to_string(),
        payload,
        out_payload: StrMap::new(),
        logs: vec![],
    }
}

fn cfg(kind: PayloadType, key1: &str, key2: Option<&str>) -> PayloadConfig {
    PayloadConfig { kind, key1: key1.to_string(), key2: key2.map(|s| s.to_string()) }
}

#[test]
fn placeholders_are_filled() {
    let values = map(&[("branch", "main"), ("param", "x y")]);
    assert_eq!(replace_placeholders("git checkout {branch} && run {param}", &values), "git checkout main && run x y");
    assert_eq!(replace_placeholders("keep {missing} and {} and {", &values), "keep {missing} and {} and {");
    assert_eq!(replace_placeholders("{{branch}", &values), "{{branch}");
    assert_eq!(replace_placeholders("{branch}{branch}", &values), "mainmain");
    assert_eq!(replace_placeholders("", &values), "");
}

#[test]
fn payload_fills_environment_and_parameters() {
    let build = process(map(&[("VERSION", "1.0"), ("branch", "dev")]));
    let cfgs = vec![
        cfg(PayloadType::Env, "VERSION", Some("APP_VERSION")),
        cfg(PayloadType::Param, "branch", None),
        cfg(PayloadType::Env, "branch", None),
        cfg(PayloadType::File, "notes", Some("out/notes.txt")),
    ];
    let mut env = StrMap::new();
    let mut params = StrMap::new();
    extract_payload(&cfgs, &build.payload, &mut env, &mut params);
    assert_eq!(env.get("APP_VERSION").map(|s| s.as_str()), Some("1.0"));
    assert_eq!(env.get("branch").map(|s| s.as_str()), Some("dev"));
    assert_eq!(params.get("branch").map(|s| s.as_str()), Some("dev"));
    assert_eq!(env.len(), 2);
    assert_eq!(params.len(), 1);
}

#[test]
fn report_payload_takes_values_and_files() {
    let mut build = process(map(&[("RESULT", "ok")]));
    let cfgs = vec![
        cfg(PayloadType::Env, "result", Some("RESULT")),
        cfg(PayloadType::Env, "absent", None),
        cfg(PayloadType::File, "artifact", Some("dist/info.txt")),
        cfg(PayloadType::File, "unreadable", None),
    ];
    let files = vec![None, None, Some("file body".to_string()), None];
    build.fill_out_payload(&cfgs, &files);
    assert_eq!(build.out_payload.get("result").map(|s| s.as_str()), Some("ok"));
    assert_eq!(build.out_payload.get("artifact").map(|s| s.as_str()), Some("file body"));
    assert!(build.out_payload.get("absent").is_none());
    assert!(build.out_payload.get("unreadable").is_none());
}

#[test]
fn command_results_set_status() {
    let mut b = process(StrMap::new());
    assert!(!b.record_command_result(false, true, true));
    assert_eq!(b.status, Status::Success);
    assert!(!b.record_command_result(false, false, false));
    assert_eq!(b.status, Status::Error);
    assert!(b.record_command_result(false, false, true));
    assert!(b.record_command_result(true, true, false));
    assert_eq!(b.status, Status::Aborted);
    assert!(continues_after(true, true));
    assert!(continues_after(false, false));
    assert!(!continues_after(false, true));
}

#[test]
fn steps_are_logged_and_finishing_commands_chosen() {
    let mut b = process(StrMap::new());
    let (log, project) = b.begin_step(1, 2, &"Compile".to_string(), 99);
    assert_eq!(b.current_step, 1);
    assert_eq!(b.logs.len(), 1);
    assert_eq!((log.status, log.step, log.total_steps, log.message.as_str(), log.timestamp), (Status::StartingCommand, 1, 2, "Compile", 99));
    assert_eq!((project.id.as_str(), project.unique_id.as_str(), project.socket_token.as_str()), ("b1", "u1", "tok"));
    let ok = vec![CommandConfig { title: "s".to_string(), command: "echo s".to_string(), send_to_sock: false, abort_on_error: false, extract_envs: vec![] }];
    let bad: Vec<CommandConfig> = vec![];
    b.record_command_result(false, true, false);
    assert_eq!(b.finishing_commands(&ok, &bad).len(), 1);
    b.record_command_result(false, false, false);
    assert_eq!(b.finishing_commands(&ok, &bad).len(), 0);
    let fin = b.final_log(2, 2, 100);
    assert_eq!((fin.message.as_str(), fin.state), ("Finalizing build", Status::Error));
    let more = vec![log.clone(), log];
    b.append_logs(&more);
    assert_eq!(b.logs.len(), 3);
}

#[test]
fn build_state_starts_empty() {
    let s = BuildState::new();
    assert!(s.build_queue.is_empty() && s.current_build.is_none() && s.failed_history.is_empty());
}

#[test]
fn strmap_insert_replaces() {
    let mut m = StrMap::new();
    m.insert("a".to_string(), "1".to_string());
    m.insert("b".to_string(), "2".to_string());
    m.insert("a".to_string(), "3".to_string());
    assert_eq!(m.len(), 2);
    assert_eq!(m.get("a").map(|s| s.as_str()), Some("3"));
    assert!(m.contains_key("b"));
    assert!(!m.contains_key("c"));
    let c = m.copy();
    assert_eq!(c.entry(0), (&"a".to_string(), &"3".to_string()));
}

#[test]
fn placeholders_without_values_leave_text_unchanged() {
    let empty = StrMap::new();
    for t in ["a {b} c", "{x}{y}", "no braces here", "{}", "{{}}", "}{"] {
        assert_eq!(replace_placeholders(t, &empty), t);
    }
}

#[test]
fn command_run_advances_until_a_stop() {
    let mut b = process(StrMap::new());
    let mut run = CommandRun::new(3, 3);
    assert_eq!(run.next_index(), Some(0));
    run.finish_build_command(&mut b, false, true, true);
    assert_eq!((run.step, run.index, run.stopped), (4, 1, false));
    assert_eq!(b.status, Status::Success);
    run.finish_build_command(&mut b, false, false, false);
    assert_eq!((run.step, run.index, run.stopped), (5, 2, false));
    assert_eq!(b.status, Status::Error);
    run.finish_build_command(&mut b, false, false, true);
    assert_eq!((run.step, run.index, run.stopped), (5, 2, true));
    assert_eq!(run.next_index(), None);
}

#[test]
fn command_run_stops_on_abort_and_ends_at_count() {
    let mut b = process(StrMap::new());
    let mut run = CommandRun::new(1, 2);
    run.finish_build_command(&mut b, true, true, false);
    assert!(run.stopped);
    assert_eq!(b.status, Status::Aborted);
    assert_eq!(run.next_index(), None);

    let mut extra = CommandRun::new(1, 1);
    extra.finish_extra_command(false, false);
    assert_eq!((extra.step, extra.index, extra.stopped), (2, 1, false));
    assert_eq!(extra.next_index(), None);

    let mut halted = CommandRun::new(0, 2);
    halted.finish_extra_command(false, true);
    assert_eq!((halted.step, halted.index, halted.stopped), (0, 0, true));
    assert_eq!(halted.next_index(), None);
}
