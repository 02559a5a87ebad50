use explorer_kit::generation::{Generation, GenerationError, Step};

#[test]
fn first_step_feeds_whole_prompt_then_one_token() {
    let mut g = Generation::start(vec![10, 11, 12], Some(0), 5, 2, true).unwrap();
    assert_eq!(g.next_step(), Some(Step { context_start: 0, penalty_start: 1 }));
    assert!(g.record(20));
    assert_eq!(g.tokens(), &vec![10, 11, 12, 20]);
    assert_eq!(g.next_step(), Some(Step { context_start: 3, penalty_start: 2 }));
    assert!(g.record(21));
    assert_eq!(g.next_step(), Some(Step { context_start: 4, penalty_start: 3 }));
    assert_eq!(g.generated_tokens(), 2);
}

#[test]
fn penalty_window_covers_all_tokens_when_few() {
    let g = Generation::start(vec![1, 2], Some(99), 3, 64, true).unwrap();
    assert_eq!(g.next_step(), Some(Step { context_start: 0, penalty_start: 0 }));
}

#[test]
fn stops_at_end_of_sequence_token() {
    let mut g = Generation::start(vec![5], Some(7), 10, 64, true).unwrap();
    assert!(g.record(3));
    assert!(!g.record(7));
    assert_eq!(g.next_step(), None);
    assert_eq!(g.generated_tokens(), 2);
    assert_eq!(g.tokens(), &vec![5, 3, 7]);
}

#[test]
fn stops_after_sample_len_tokens() {
    let mut g = Generation::start(vec![5], Some(7), 2, 64, true).unwrap();
    assert!(g.record(1));
    assert!(g.record(2));
    assert_eq!(g.next_step(), None);
    assert_eq!(g.generated_tokens(), 2);
}

#[test]
fn zero_sample_len_asks_nothing() {
    let g = Generation::start(vec![5], Some(7), 0, 64, true).unwrap();
    assert_eq!(g.next_step(), None);
    assert_eq!(g.generated_tokens(), 0);
}

#[test]
fn start_errors() {
    assert_eq!(Generation::start(vec![], Some(1), 4, 4, false).err(), Some(GenerationError::EmptyPrompt));
    assert_eq!(Generation::start(vec![], None, 4, 4, false).err(), Some(GenerationError::EmptyPrompt));
    assert_eq!(Generation::start(vec![3], None, 4, 4, false).err(), Some(GenerationError::MissingEos));
    let g = Generation::start(vec![], Some(1), 4, 4, true).unwrap();
    assert_eq!(g.next_step(), Some(Step { context_start: 0, penalty_start: 0 }));
}
