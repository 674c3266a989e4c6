use cargs::batch::{build_batches, BatchBuilder};
use cargs::config::{ConfigError, RunConfig};
use cargs::status::{aggregate, InvocationResult};
use cargs::template::CommandTemplate;

fn words(ws: &[&str]) -> Vec<String> {
    ws.iter().map(|w| w.to_string()).collect()
}

#[test]
fn five_tokens_two_per_batch_with_echo() {
    let tokens = words(&["a", "b", "c", "d", "e"]);
    let batches = build_batches(&tokens, 2);
    assert_eq!(batches, vec![words(&["a", "b"]), words(&["c", "d"]), words(&["e"])]);
    let template = CommandTemplate::new(words(&["echo"]));
    let argvs: Vec<Vec<String>> = batches.iter().map(|b| template.invocation(b)).collect();
    assert_eq!(
        argvs,
        vec![words(&["echo", "a", "b"]), words(&["echo", "c", "d"]), words(&["echo", "e"])]
    );
    let results = vec![InvocationResult::Exited(0); 3];
    assert_eq!(aggregate(&results), 0);
}

#[test]
fn empty_input_gives_no_batches() {
    let batches = build_batches(&Vec::new(), 3);
    assert!(batches.is_empty());
    assert_eq!(aggregate(&[]), 0);
}

#[test]
fn batches_rejoin_to_the_input() {
    let tokens = words(&["1", "2", "3", "4", "5", "6", "7"]);
    for n in 1..10usize {
        let batches = build_batches(&tokens, n);
        let joined: Vec<String> = batches.concat();
        assert_eq!(joined, tokens);
    }
}

#[test]
fn batch_sizes_full_then_partial() {
    let tokens = words(&["1", "2", "3", "4", "5", "6", "7"]);
    let batches = build_batches(&tokens, 3);
    let sizes: Vec<usize> = batches.iter().map(|b| b.len()).collect();
    assert_eq!(sizes, vec![3, 3, 1]);
    for n in 1..10usize {
        let batches = build_batches(&tokens, n);
        let (last, rest) = batches.split_last().unwrap();
        assert!(rest.iter().all(|b| b.len() == n));
        assert!(!last.is_empty() && last.len() <= n);
    }
}

#[test]
fn exact_multiple_has_no_short_batch() {
    let tokens = words(&["a", "b", "c", "d"]);
    assert_eq!(build_batches(&tokens, 2), vec![words(&["a", "b"]), words(&["c", "d"])]);
    assert_eq!(build_batches(&tokens, 4), vec![tokens.clone()]);
}

#[test]
fn bound_above_input_gives_one_batch() {
    let tokens = words(&["x", "y"]);
    assert_eq!(build_batches(&tokens, 10), vec![tokens.clone()]);
}

#[test]
fn one_token_per_batch_by_default_bound() {
    let tokens = words(&["x", "y", "z"]);
    assert_eq!(build_batches(&tokens, 1), vec![words(&["x"]), words(&["y"]), words(&["z"])]);
}

#[test]
fn builder_hands_out_full_batches_as_they_fill() {
    let mut b = BatchBuilder::new(2);
    assert_eq!(b.max_args(), 2);
    assert_eq!(b.push("a".to_string()), None);
    assert_eq!(b.push("b".to_string()), Some(words(&["a", "b"])));
    assert_eq!(b.push("c".to_string()), None);
    assert_eq!(b.finish(), Some(words(&["c"])));
}

#[test]
fn builder_finish_when_empty() {
    let mut b = BatchBuilder::new(1);
    assert_eq!(b.push("a".to_string()), Some(words(&["a"])));
    assert_eq!(b.finish(), None);
}

#[test]
fn zero_max_args_is_refused() {
    assert_eq!(RunConfig::new(0, 1), Err(ConfigError::ZeroMaxArgs));
    let c = RunConfig::new(3, 0).unwrap();
    assert_eq!(c.max_args, 3);
    assert_eq!(c.max_procs, 0);
    assert!(c.unbounded());
    assert!(!RunConfig::new(1, 4).unwrap().unbounded());
}

#[test]
fn template_defaults_to_echo() {
    let t = CommandTemplate::new(Vec::new());
    assert_eq!(t.words(), &words(&["echo"]));
    assert_eq!(t.invocation(&words(&["hi"])), words(&["echo", "hi"]));
}

#[test]
fn template_keeps_leading_arguments() {
    let t = CommandTemplate::new(words(&["grep", "-n", "x"]));
    assert_eq!(t.invocation(&words(&["f1", "f2"])), words(&["grep", "-n", "x", "f1", "f2"]));
    assert_eq!(t.invocation(&Vec::new()), words(&["grep", "-n", "x"]));
}
