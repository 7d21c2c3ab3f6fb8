use acp_agent::failure::Failure;
use acp_agent::yolo::{
    choose_catalog, resolve_args, yolo_extra_args_from, YoloEntry, YoloMode,
    YoloModes,
};

fn entry(agent_id: &str, args: &[&str]) -> YoloEntry {
    YoloEntry {
        agent_id: agent_id.to_string(),
        mode: YoloMode {
            args: args.iter().map(|arg| arg.to_string()).collect(),
        },
    }
}

fn sample_catalog() -> YoloModes {
    YoloModes::new(
        2,
        vec![
            entry("gemini", &["--yolo"]),
            entry("devin", &["--permission-mode", "allow all tools"]),
        ],
    )
}

#[test]
fn single_token_arguments_are_injected() {
    let args = yolo_extra_args_from(&sample_catalog(), "gemini").expect("gemini has arguments");
    assert_eq!(args, vec!["--yolo"]);
}

#[test]
fn argument_boundaries_are_preserved() {
    let args = yolo_extra_args_from(&sample_catalog(), "devin").expect("devin has arguments");
    assert_eq!(args, vec!["--permission-mode", "allow all tools"]);
}

#[test]
fn agent_without_yolo_mapping_errors() {
    let error = yolo_extra_args_from(&sample_catalog(), "opencode")
        .expect_err("opencode has no yolo mapping");
    assert!(error.message.contains("no yolo mode mapping"));
}

#[test]
fn unknown_agent_errors() {
    let error =
        yolo_extra_args_from(&sample_catalog(), "not-a-real-agent").expect_err("unknown agent");
    assert!(error.message.contains("no yolo mode mapping"));
}

#[test]
fn disabled_resolution_preserves_arguments_without_catalog_lookup() {
    let args = vec!["--model".to_string(), "demo".to_string()];
    assert_eq!(
        resolve_args("unknown-agent", false, args.clone(), None).unwrap(),
        args
    );
}

#[test]
fn enabled_resolution_puts_its_arguments_first() {
    let args = vec!["--model".to_string()];
    assert_eq!(
        resolve_args("devin", true, args, Some(&sample_catalog())).unwrap(),
        vec!["--permission-mode", "allow all tools", "--model"]
    );
}

#[test]
fn the_last_entry_of_an_agent_counts() {
    let catalog = YoloModes::new(2, vec![entry("a", &["--x"]), entry("a", &["--y"])]);
    assert_eq!(yolo_extra_args_from(&catalog, "a").unwrap(), vec!["--y"]);
}

#[test]
fn the_bundled_catalog_stands_in() {
    let bundled = || YoloModes::new(2, vec![entry("gemini", &["--bundled"])]);
    let failed = |words: &str| Err(Failure::new(words.to_string()));
    let choice = choose_catalog(Ok(sample_catalog()), Ok(bundled())).unwrap();
    assert!(choice.warning.is_none());
    assert_eq!(choice.catalog, sample_catalog());
    let choice = choose_catalog(Ok(sample_catalog()), failed("missing")).unwrap();
    assert_eq!(choice.catalog, sample_catalog());
    let choice = choose_catalog(failed("offline"), Ok(bundled())).unwrap();
    assert_eq!(
        choice.warning.unwrap(),
        "warning: offline; using the yolo-mode catalog bundled with this release"
    );
    assert_eq!(choice.catalog, bundled());
    let error = choose_catalog(failed("offline"), failed("missing")).unwrap_err();
    assert_eq!(error.message, "missing");
}
