use energy_benchmark::benchmark::data_generator::{
    build_level, fixture_file_name, generate_fixed_size_word, generate_nested_data,
    LogicalDocument, WRITE_TARGET_BYTE_SIZE,
};

fn chain_length(doc: &LogicalDocument) -> usize {
    match doc {
        LogicalDocument::Leaf { .. } => 1,
        LogicalDocument::Level { child, .. } => 1 + chain_length(child),
    }
}

fn is_lower_case_word(text: &str) -> bool {
    !text.is_empty() && text.chars().all(|c| c.is_ascii_lowercase())
}

#[test]
fn batch_has_the_requested_count_and_depth() {
    for depth in [1u8, 3, 5, 10] {
        for count in [0usize, 1, 4, 7] {
            let docs = generate_nested_data(depth, count);
            assert_eq!(docs.len(), count);
            for doc in &docs {
                assert_eq!(chain_length(doc), depth as usize);
                assert!(doc.has_depth(depth as usize));
                assert!(!doc.has_depth(depth as usize + 1));
            }
        }
    }
}

#[test]
fn write_target_has_the_fixed_size_at_every_depth() {
    assert_eq!(WRITE_TARGET_BYTE_SIZE, 16);
    for depth in [1u8, 2, 3, 5, 10] {
        for doc in generate_nested_data(depth, 6) {
            let payload = doc.leaf_write_target();
            assert_eq!(payload.len(), 16);
            assert!(payload.chars().all(|c| c.is_ascii_alphanumeric()));
        }
    }
}

#[test]
fn even_positions_are_targetable() {
    let docs = generate_nested_data(3, 4);
    let kinds: Vec<bool> = docs.iter().map(|doc| doc.is_targetable()).collect();
    assert_eq!(kinds, vec![true, false, true, false]);
    assert_eq!(docs[0].leaf_read_target(), "read_target");
    assert_eq!(docs[2].leaf_read_target(), "read_target");
    assert_ne!(docs[1].leaf_read_target(), "read_target");
    assert_ne!(docs[3].leaf_read_target(), "read_target");
}

#[test]
fn half_of_an_odd_batch_rounded_up_is_targetable() {
    let docs = generate_nested_data(2, 5);
    assert_eq!(docs.iter().filter(|doc| doc.is_targetable()).count(), 3);
    let docs = generate_nested_data(2, 1);
    assert_eq!(docs.iter().filter(|doc| doc.is_targetable()).count(), 1);
}

#[test]
fn documents_that_are_not_targetable_carry_a_word() {
    for doc in generate_nested_data(4, 20) {
        if !doc.is_targetable() {
            assert!(is_lower_case_word(doc.leaf_read_target()));
        }
    }
}

#[test]
fn depth_one_is_a_bare_leaf() {
    for doc in generate_nested_data(1, 3) {
        assert!(matches!(doc, LogicalDocument::Leaf { .. }));
    }
}

#[test]
fn upper_levels_hold_a_word_and_one_child() {
    let docs = generate_nested_data(3, 2);
    for doc in &docs {
        match doc {
            LogicalDocument::Level { field, child } => {
                assert!(is_lower_case_word(field));
                match child.as_ref() {
                    LogicalDocument::Level { field, child } => {
                        assert!(is_lower_case_word(field));
                        assert!(matches!(child.as_ref(), LogicalDocument::Leaf { .. }));
                    }
                    LogicalDocument::Leaf { .. } => panic!("the chain ends one level early"),
                }
            }
            LogicalDocument::Leaf { .. } => panic!("the chain has no upper level"),
        }
    }
}

#[test]
fn levels_are_built_from_the_current_depth_down() {
    assert_eq!(chain_length(&build_level(1, 1, true)), 1);
    assert_eq!(chain_length(&build_level(1, 4, true)), 4);
    assert_eq!(chain_length(&build_level(3, 4, false)), 2);
    assert!(build_level(2, 5, true).is_targetable());
    assert!(!build_level(2, 5, false).is_targetable());
}

#[test]
fn fixed_size_word_has_exactly_the_requested_bytes() {
    for size in [0usize, 1, 15, 16, 31, 32, 33, 64, 100] {
        let word = generate_fixed_size_word(size);
        assert_eq!(word.len(), size);
        assert_eq!(word.chars().count(), size);
        assert!(word.chars().all(|c| c.is_ascii_alphanumeric()));
    }
}

#[test]
fn fixed_size_words_are_drawn_anew() {
    let first = generate_fixed_size_word(64);
    let second = generate_fixed_size_word(64);
    assert_ne!(first, second);
}

#[test]
fn fixture_files_are_named_by_depth() {
    assert_eq!(fixture_file_name(3), "data_depth_3.json");
    assert_eq!(fixture_file_name(10), "data_depth_10.json");
    assert_eq!(fixture_file_name(255), "data_depth_255.json");
}
