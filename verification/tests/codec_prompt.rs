//! Payload encoding, routing, and prompt construction.

use fan_quiz::codec::{
    answer_custom_id, is_setup_command, route_component, setup_command_name_bytes,
    start_button_id_bytes, ComponentRoute,
};
use fan_quiz::prompt::build_prompt;
use fan_quiz::question::Question;
use fan_quiz::sampling::{display_order, sample_indices};

fn question(text: &str, answers: &[&str], correct: usize) -> Question {
    Question {
        question: text.to_string(),
        answers: answers.iter().map(|s| s.to_string()).collect(),
        correct_answer: correct,
    }
}

#[test]
fn fixed_identifiers_spell_their_tokens() {
    assert_eq!(start_button_id_bytes(), b"buttonsetupapplication".to_vec());
    assert_eq!(setup_command_name_bytes(), b"setupfanapplicationchannel".to_vec());
}

#[test]
fn answer_ids_spell_their_index() {
    assert_eq!(answer_custom_id(0), b"answer0".to_vec());
    assert_eq!(answer_custom_id(3), b"answer3".to_vec());
}

#[test]
fn answer_ids_route_back_to_their_index() {
    for i in 0..4 {
        let id = answer_custom_id(i);
        assert_eq!(route_component(&id), ComponentRoute::Answer { index: i });
    }
}

#[test]
fn start_button_routes_to_start() {
    assert_eq!(route_component(b"buttonsetupapplication"), ComponentRoute::StartApplication);
}

#[test]
fn unknown_identifiers_route_to_unknown() {
    assert_eq!(route_component(b""), ComponentRoute::Unknown);
    assert_eq!(route_component(b"answer4"), ComponentRoute::Unknown);
    assert_eq!(route_component(b"answer"), ComponentRoute::Unknown);
    assert_eq!(route_component(b"answer00"), ComponentRoute::Unknown);
    assert_eq!(route_component(b"Answer0"), ComponentRoute::Unknown);
    assert_eq!(route_component(b"buttonsetupapplicationx"), ComponentRoute::Unknown);
}

#[test]
fn setup_command_is_recognized_exactly() {
    assert!(is_setup_command(b"setupfanapplicationchannel"));
    assert!(!is_setup_command(b"setupfanapplicationchanne"));
    assert!(!is_setup_command(b"somethingelse"));
}

#[test]
fn sample_returns_distinct_indices_in_range() {
    for _ in 0..20 {
        let s = sample_indices(10, 5);
        assert_eq!(s.len(), 5);
        for i in 0..5 {
            assert!(s[i] < 10);
            for j in 0..i {
                assert_ne!(s[i], s[j]);
            }
        }
    }
}

#[test]
fn sample_of_whole_bank_is_a_permutation() {
    let s = sample_indices(6, 6);
    let mut seen = [false; 6];
    for v in &s {
        seen[*v] = true;
    }
    assert!(seen.iter().all(|x| *x));
}

#[test]
fn display_order_keeps_original_order_below_four() {
    for count in 0..4 {
        let ord = display_order(count);
        assert_eq!(ord.len(), count);
        for (k, v) in ord.iter().enumerate() {
            assert_eq!(*v, k);
        }
    }
}

#[test]
fn display_order_of_four_is_a_permutation() {
    for _ in 0..20 {
        let ord = display_order(4);
        let mut seen = [false; 4];
        assert_eq!(ord.len(), 4);
        for v in &ord {
            seen[*v] = true;
        }
        assert!(seen.iter().all(|x| *x));
    }
}

#[test]
fn three_answer_prompt_is_unshuffled_with_original_indices() {
    let q = question("pick one", &["first", "second", "third"], 1);
    let p = build_prompt(&q);
    assert_eq!(p.text, "pick one");
    assert_eq!(p.buttons.len(), 3);
    for (k, b) in p.buttons.iter().enumerate() {
        assert_eq!(b.custom_id, answer_custom_id(k));
        assert_eq!(b.label, q.answers[k]);
    }
}

#[test]
fn four_answer_prompt_buttons_encode_original_indices() {
    let q = question("pick one", &["a0", "a1", "a2", "a3"], 2);
    for _ in 0..20 {
        let p = build_prompt(&q);
        assert_eq!(p.buttons.len(), 4);
        let mut seen = [false; 4];
        for b in &p.buttons {
            let route = route_component(&b.custom_id);
            match route {
                ComponentRoute::Answer { index } => {
                    // The payload names the original answer, whatever
                    // position the shuffle gave the button.
                    assert_eq!(b.label, q.answers[index]);
                    seen[index] = true;
                },
                _ => panic!("answer button routed to {route:?}"),
            }
        }
        assert!(seen.iter().all(|x| *x));
    }
}

#[test]
fn empty_sample_is_allowed_directly() {
    let s = sample_indices(4, 0);
    assert!(s.is_empty());
}

#[test]
fn two_answer_prompt_keeps_order() {
    let q = question("yes or no", &["yes", "no"], 0);
    let p = build_prompt(&q);
    assert_eq!(p.buttons.len(), 2);
    assert_eq!(p.buttons[0].label, "yes");
    assert_eq!(p.buttons[1].label, "no");
    assert_eq!(p.buttons[0].custom_id, b"answer0".to_vec());
    assert_eq!(p.buttons[1].custom_id, b"answer1".to_vec());
}
