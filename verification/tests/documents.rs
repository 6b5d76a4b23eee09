use crosshair::loader::{
    distinct_paths, load_strategy_targets, LoadError, LoadStage, StrategyTarget,
};
use crosshair::path::FilePath;
use crosshair::schema::{Doc, RetryPolicy, Status, Strategy, Target, TargetMap};
use serde_yaml_ng::Value;

fn text(v: &Value, field: &str) -> Option<String> {
    v.get(field).and_then(Value::as_str).map(str::to_string)
}

fn strategy_from(v: &Value) -> Strategy {
    Strategy {
        command: text(v, "command").unwrap(),
        trigger: text(v, "trigger").unwrap(),
        timeout: text(v, "timeout"),
        retry: v.get("retry").map(|r| RetryPolicy {
            max_attempts: r.get("max_attempts").and_then(Value::as_u64).map(|n| n as u32),
            backoff: text(r, "backoff"),
        }),
    }
}

fn target_from(v: &Value) -> Target {
    Target {
        name: text(v, "name").unwrap(),
        status: match v.get("status").and_then(Value::as_str) {
            None => Status::default(),
            Some("identified") => Status::Identified,
            Some("converging") => Status::Converging,
            Some("achieved") => Status::Achieved,
            Some("set_aside") => Status::SetAside,
            Some(other) => panic!("unknown status {other}"),
        },
        strategy: v.get("strategy").map(strategy_from),
    }
}

fn doc_from_yaml(yaml: &str) -> Doc {
    let v: Value = serde_yaml_ng::from_str(yaml).unwrap();
    let mut targets = TargetMap::new();
    if let Some(map) = v.get("targets").and_then(Value::as_mapping) {
        for (id, target) in map {
            targets.insert(id.as_str().unwrap().to_string(), target_from(target));
        }
    }
    Doc {
        schema_version: v.get("schema_version").and_then(Value::as_u64).unwrap_or(0) as u32,
        targets,
    }
}

fn load(path: &str, yaml: &str) -> Vec<StrategyTarget> {
    load_strategy_targets(&vec![Ok((FilePath::from_text(path), doc_from_yaml(yaml)))]).unwrap()
}

fn failure(stage: LoadStage, path: &str) -> LoadError {
    LoadError { stage, path: path.to_string(), cause: "cause".to_string() }
}

fn with_strategy(name: &str) -> Target {
    Target {
        name: name.to_string(),
        status: Status::Identified,
        strategy: Some(Strategy {
            command: format!("run {name}"),
            trigger: "manual".to_string(),
            timeout: None,
            retry: None,
        }),
    }
}

#[test]
fn parses_minimal_doc() {
    let yaml = r#"
schema_version: 3
targets:
  T1:
    name: example
    status: identified
    strategy:
      command: "echo hi"
      trigger: "manual"
"#;
    let doc = doc_from_yaml(yaml);
    assert_eq!(doc.schema_version, 3);
    let t = doc.targets.get("T1").unwrap();
    assert_eq!(t.name, "example");
    assert_eq!(t.status, Status::Identified);
    let s = t.strategy.as_ref().unwrap();
    assert_eq!(s.command, "echo hi");
    assert_eq!(s.trigger, "manual");
}

#[test]
fn ignores_unknown_fields() {
    let yaml = r#"
schema_version: 3
unknown_top_level: foo
targets:
  T1:
    name: example
    status: converging
    value: 5
    cost: 3
    acceptance:
      - thing 1
    showcase: true
    strategy:
      command: "true"
      trigger: "cron:0 * * * *"
      timeout: "30m"
      retry:
        max_attempts: 5
        backoff: "exponential"
"#;
    let doc = doc_from_yaml(yaml);
    let t = doc.targets.get("T1").unwrap();
    assert_eq!(t.status, Status::Converging);
    let s = t.strategy.as_ref().unwrap();
    assert_eq!(s.timeout.as_deref(), Some("30m"));
    let r = s.retry.as_ref().unwrap();
    assert_eq!(r.max_attempts, Some(5));
}

#[test]
fn target_without_strategy_loads() {
    let yaml = r#"
schema_version: 3
targets:
  T1:
    name: example
    status: identified
"#;
    let doc = doc_from_yaml(yaml);
    assert!(doc.targets.get("T1").unwrap().strategy.is_none());
}

#[test]
fn skips_targets_without_strategy() {
    let targets = load(
        "/tmp/a.yaml",
        r#"
schema_version: 3
targets:
  T1:
    name: no strategy
    status: identified
  T2:
    name: with strategy
    status: identified
    strategy:
      command: "true"
      trigger: "manual"
"#,
    );
    assert_eq!(targets.len(), 1);
    assert_eq!(targets[0].target_id, "T2");
    assert_eq!(targets[0].strategy.command, "true");
}

#[test]
fn deduplicates_repeated_paths() {
    let yaml = r#"
schema_version: 3
targets:
  T1:
    name: one
    status: identified
    strategy:
      command: "true"
      trigger: "manual"
"#;
    let p = FilePath::from_text("/tmp/a.yaml");
    let canonical = distinct_paths(&vec![Ok(p.clone()), Ok(p)]).unwrap();
    assert_eq!(canonical.len(), 1);
    let loaded = canonical.into_iter().map(|path| Ok((path, doc_from_yaml(yaml)))).collect();
    let targets = load_strategy_targets(&loaded).unwrap();
    assert_eq!(targets.len(), 1);
}

#[test]
fn paths_keep_the_order_of_first_mention() {
    let path = FilePath::from_text;
    let resolved = vec![Ok(path("/b")), Ok(path("/a")), Ok(path("/b")), Ok(path("/c")), Ok(path("/a"))];
    assert_eq!(distinct_paths(&resolved).unwrap(), vec![path("/b"), path("/a"), path("/c")]);
}

#[test]
fn the_first_failure_to_resolve_a_path_is_reported() {
    let resolved = vec![
        Ok(FilePath::from_text("/a")),
        Err(failure(LoadStage::Canonicalise, "/x")),
        Err(failure(LoadStage::Canonicalise, "/y")),
    ];
    let e = distinct_paths(&resolved).unwrap_err();
    assert_eq!(e.stage, LoadStage::Canonicalise);
    assert_eq!(e.path, "/x");
    assert_eq!(e.cause, "cause");
}

#[test]
fn the_first_failure_to_load_a_document_is_reported() {
    let loaded = vec![
        Ok((FilePath::from_text("/a"), doc_from_yaml("targets: {}"))),
        Err(failure(LoadStage::Parse, "/x")),
        Err(failure(LoadStage::Read, "/y")),
    ];
    let e = load_strategy_targets(&loaded).unwrap_err();
    assert_eq!(e.stage, LoadStage::Parse);
    assert_eq!(e.path, "/x");
}

#[test]
fn targets_come_by_document_and_then_by_id() {
    let mut one = TargetMap::new();
    for id in ["T2", "T10", "é", "T1", "z"] {
        one.insert(id.to_string(), with_strategy(id));
    }
    let mut two = TargetMap::new();
    two.insert("A".to_string(), with_strategy("A"));
    let loaded = vec![
        Ok((FilePath::from_text("/two"), Doc { schema_version: 3, targets: one })),
        Ok((FilePath::from_text("/one"), Doc { schema_version: 3, targets: two })),
    ];
    let targets = load_strategy_targets(&loaded).unwrap();
    let found: Vec<(String, String)> = targets
        .iter()
        .map(|t| {
            let (path, id) = t.key();
            (path, id.to_string())
        })
        .collect();
    let expected: Vec<(String, String)> = [
        ("/two", "T1"),
        ("/two", "T10"),
        ("/two", "T2"),
        ("/two", "z"),
        ("/two", "é"),
        ("/one", "A"),
    ]
    .iter()
    .map(|(p, id)| (p.to_string(), id.to_string()))
    .collect();
    assert_eq!(found, expected);
    assert_eq!(targets[1].strategy.command, "run T10");
    assert_eq!(targets[1].target.name, "T10");
}

#[test]
fn a_map_of_targets_is_ordered_and_overwrites() {
    let ids = ["b", "a", "ab", "", "c", "a\u{10ffff}", "a\u{ffff}", "aa"];
    let mut ours = TargetMap::new();
    let mut reference = std::collections::BTreeMap::new();
    for (n, id) in ids.iter().enumerate() {
        assert!(ours.insert(id.to_string(), with_strategy(&n.to_string())).is_none());
        reference.insert(id.to_string(), n.to_string());
    }
    let replaced = ours.insert("ab".to_string(), with_strategy("new")).unwrap();
    assert_eq!(Some(replaced.name), reference.insert("ab".to_string(), "new".to_string()));
    let found: Vec<(String, String)> =
        ours.entries().iter().map(|(id, t)| (id.clone(), t.name.clone())).collect();
    let expected: Vec<(String, String)> = reference.into_iter().collect();
    assert_eq!(found, expected);
    assert_eq!(ours.get("ab").unwrap().name, "new");
    assert!(ours.get("abc").is_none());
}

#[test]
fn only_achieved_and_set_aside_are_terminal() {
    assert!(!Status::Identified.is_terminal());
    assert!(!Status::Converging.is_terminal());
    assert!(Status::Achieved.is_terminal());
    assert!(Status::SetAside.is_terminal());
    assert_eq!(Status::default(), Status::Identified);
}

#[test]
fn the_same_id_in_two_files_has_two_keys() {
    let mut a = load(
        "/a.yaml",
        "targets: {T1: {name: n, strategy: {command: c, trigger: manual}}}",
    )
    .remove(0);
    let b = a.clone();
    a.yaml_path = FilePath::from_text("/b.yaml");
    assert_eq!(a.key(), ("/b.yaml".to_string(), "T1"));
    assert_eq!(b.key(), ("/a.yaml".to_string(), "T1"));
}
