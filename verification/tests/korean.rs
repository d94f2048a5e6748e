use wterm::ime::korean::{
    KoreanInputState, combine_consonants, combine_vowels, compose_korean, get_chosung_index,
    get_jongsung_index, get_jungsung_index, is_consonant, is_vowel,
};

#[test]
fn chosung_indices_follow_unicode_order() {
    assert_eq!(get_chosung_index('ㄱ'), Some(0));
    assert_eq!(get_chosung_index('ㄲ'), Some(1));
    assert_eq!(get_chosung_index('ㅇ'), Some(11));
    assert_eq!(get_chosung_index('ㅎ'), Some(18));
    assert_eq!(get_chosung_index('ㄳ'), None);
    assert_eq!(get_chosung_index('ㅏ'), None);
    assert_eq!(get_chosung_index('a'), None);
}

#[test]
fn jungsung_indices_are_offsets_from_a() {
    assert_eq!(get_jungsung_index('ㅏ'), Some(0));
    assert_eq!(get_jungsung_index('ㅘ'), Some(9));
    assert_eq!(get_jungsung_index('ㅣ'), Some(20));
    for (i, c) in "ㅏㅐㅑㅒㅓㅔㅕㅖㅗㅘㅙㅚㅛㅜㅝㅞㅟㅠㅡㅢㅣ".chars().enumerate() {
        assert_eq!(get_jungsung_index(c), Some(i as u32));
        assert_eq!(c as u32 - 0x314F, i as u32);
    }
    assert_eq!(get_jungsung_index('ㄱ'), None);
}

#[test]
fn jongsung_indices_start_at_one() {
    assert_eq!(get_jongsung_index('ㄱ'), Some(1));
    assert_eq!(get_jongsung_index('ㄳ'), Some(3));
    assert_eq!(get_jongsung_index('ㅎ'), Some(27));
    assert_eq!(get_jongsung_index('ㄸ'), None);
    assert_eq!(get_jongsung_index('ㅃ'), None);
    assert_eq!(get_jongsung_index('ㅉ'), None);
}

#[test]
fn compound_jamo() {
    assert_eq!(combine_vowels('ㅗ', 'ㅏ'), Some('ㅘ'));
    assert_eq!(combine_vowels('ㅜ', 'ㅣ'), Some('ㅟ'));
    assert_eq!(combine_vowels('ㅡ', 'ㅣ'), Some('ㅢ'));
    assert_eq!(combine_vowels('ㅏ', 'ㅗ'), None);
    assert_eq!(combine_consonants('ㄹ', 'ㄱ'), Some('ㄺ'));
    assert_eq!(combine_consonants('ㅂ', 'ㅅ'), Some('ㅄ'));
    assert_eq!(combine_consonants('ㄱ', 'ㄱ'), None);
}

#[test]
fn compose_known_syllables() {
    assert_eq!(compose_korean(0, 0, 0), '가');
    assert_eq!(compose_korean(18, 20, 27), '힣');
    assert_eq!(compose_korean(2, 0, 4), '난');
    assert_eq!(compose_korean(11, 0, 0), '아');
}

#[test]
fn compose_out_of_scalar_range_gives_question_mark() {
    // Past the syllable block but still a valid character.
    assert_eq!(compose_korean(1000, 0, 0) as u32, 0xAC00 + 588000);
    // Into the surrogate block U+D800..U+DFFF.
    let code = 0xD800 - 0xAC00;
    let cho = code / 588;
    let rest = code % 588;
    assert_eq!(compose_korean(cho, rest / 28, rest % 28), '?');
}

#[test]
fn syllable_decomposes_back() {
    for cho in 0..19u32 {
        for jung in 0..21u32 {
            for jong in [0u32, 1, 27] {
                let c = compose_korean(cho, jung, jong) as u32 - 0xAC00;
                assert_eq!(c / 588, cho);
                assert_eq!((c / 28) % 21, jung);
                assert_eq!(c % 28, jong);
            }
        }
    }
}

#[test]
fn jamo_classes() {
    assert!(is_consonant('ㄱ'));
    assert!(is_consonant('ㅎ'));
    assert!(!is_consonant('ㅏ'));
    assert!(is_vowel('ㅏ'));
    assert!(is_vowel('ㅣ'));
    assert!(!is_vowel('ㅎ'));
    assert!(!is_vowel('a'));
}

fn type_text(state: &mut KoreanInputState, text: &str) -> String {
    let mut out = String::new();
    for ch in text.chars() {
        assert!(state.can_process_korean_char(ch));
        for c in state.process_single_char(ch) {
            out.push(c);
        }
    }
    out
}

#[test]
fn composes_a_syllable_and_shows_it() {
    let mut s = KoreanInputState::new();
    assert!(s.process_korean_char('ㅎ').is_empty());
    assert_eq!(s.get_current_char(), Some('ㅎ'));
    assert!(s.process_korean_char('ㅏ').is_empty());
    assert_eq!(s.get_current_char(), Some('하'));
    assert!(s.process_korean_char('ㄴ').is_empty());
    assert_eq!(s.get_current_char(), Some('한'));
    assert!(s.is_composing);
}

#[test]
fn final_consonant_moves_to_next_syllable() {
    let mut s = KoreanInputState::new();
    let out = type_text(&mut s, "ㄱㅏㄴㅏ");
    assert_eq!(out, "가");
    assert_eq!(s.get_current_char(), Some('나'));
    assert_eq!(s.finalize_korean_composition(), Some('나'));
    assert!(!s.is_composing);
}

#[test]
fn compound_final_and_vowel() {
    let mut s = KoreanInputState::new();
    assert_eq!(type_text(&mut s, "ㄷㅏㄹㄱ"), "");
    assert_eq!(s.get_current_char(), Some('닭'));
    let mut t = KoreanInputState::new();
    assert_eq!(type_text(&mut t, "ㄱㅗㅏ"), "");
    assert_eq!(t.get_current_char(), Some('과'));
}

#[test]
fn non_jamo_ends_composition_then_is_sent() {
    let mut s = KoreanInputState::new();
    assert_eq!(type_text(&mut s, "ㅎㅏㄴ a"), "한 a");
    assert!(!s.is_composing);
}

#[test]
fn consonant_after_initial_starts_new_syllable() {
    let mut s = KoreanInputState::new();
    assert_eq!(type_text(&mut s, "ㄱㄴ"), "ㄱ");
    assert_eq!(s.chosung, Some('ㄴ'));
}

#[test]
fn lone_vowel_is_sent_as_is() {
    let mut s = KoreanInputState::new();
    assert_eq!(type_text(&mut s, "ㅏ"), "ㅏ");
    assert!(!s.is_composing);
}

#[test]
fn vowel_that_cannot_combine_completes_syllable_and_is_sent() {
    let mut s = KoreanInputState::new();
    assert_eq!(type_text(&mut s, "ㄱㅏㅓ"), "가ㅓ");
    assert!(!s.is_composing);
    assert_eq!(s.get_current_char(), None);
    assert_eq!(s.chosung, None);
    assert_eq!(s.jungsung, None);
    let mut t = KoreanInputState::new();
    t.process_single_char('ㄱ');
    t.process_single_char('ㅏ');
    assert_eq!(t.process_korean_char('ㅓ'), vec!['가', 'ㅓ']);
    let mut u = KoreanInputState::new();
    assert_eq!(type_text(&mut u, "ㄱㅏㅏ"), "가ㅏ");
}

#[test]
fn vowel_after_compound_initial_is_sent_alone() {
    let mut s = KoreanInputState::new();
    assert_eq!(type_text(&mut s, "ㄳㅏㅓ"), "ㅓ");
    assert!(!s.is_composing);
}

#[test]
fn backspace_takes_back_one_jamo_at_a_time() {
    let mut s = KoreanInputState::new();
    type_text(&mut s, "ㅎㅏㄴ");
    assert!(s.handle_backspace());
    assert_eq!(s.get_current_char(), Some('하'));
    assert!(s.handle_backspace());
    assert_eq!(s.get_current_char(), Some('ㅎ'));
    assert!(!s.handle_backspace());
    assert!(!s.is_composing);
    assert_eq!(s.get_current_char(), None);
    assert!(!s.handle_backspace());
}

#[test]
fn backspace_undoes_the_jamo_just_typed() {
    let mut s = KoreanInputState::new();
    type_text(&mut s, "ㄱㅏ");
    let before = s;
    assert!(s.process_korean_char('ㅁ').is_empty());
    assert!(s.handle_backspace());
    assert_eq!(s.chosung, before.chosung);
    assert_eq!(s.jungsung, before.jungsung);
    assert_eq!(s.jongsung, before.jongsung);
    assert_eq!(s.is_composing, before.is_composing);
}

#[test]
fn reset_clears_everything() {
    let mut s = KoreanInputState::new();
    type_text(&mut s, "ㅎㅏㄴ");
    s.reset();
    assert_eq!(s.chosung, None);
    assert_eq!(s.jungsung, None);
    assert_eq!(s.jongsung, None);
    assert!(!s.is_composing);
    assert_eq!(s.finalize_korean_composition(), None);
}

#[test]
fn splitting_a_final_off_a_compound_initial_is_refused() {
    let mut s = KoreanInputState::new();
    type_text(&mut s, "ㄳㅏㄴ");
    assert!(!s.can_process_korean_char('ㅏ'));
    assert!(s.can_process_korean_char('ㄱ'));
}

#[test]
fn composition_state_stays_well_formed() {
    let mut s = KoreanInputState::new();
    for ch in "ㄱㅏㄴㄷㅏㄹㄱㅗㅏㅇabㅎㅏㄴㄱㅡㄹ ㅂㅅㅣ".chars() {
        assert!(s.can_process_korean_char(ch));
        s.process_single_char(ch);
        assert!(s.jungsung.is_none() || s.chosung.is_some());
        assert!(s.jongsung.is_none() || s.jungsung.is_some());
        assert_eq!(s.is_composing, s.chosung.is_some());
        if let Some(v) = s.jungsung {
            assert!(is_vowel(v));
        }
        if let Some(c) = s.chosung {
            assert!(is_consonant(c));
        }
        if s.jungsung.is_some() && s.jongsung.is_some() {
            s.handle_backspace();
            assert!(s.jongsung.is_none());
            assert!(s.jungsung.is_some());
        }
    }
}

#[test]
fn process_text_sends_completed_syllables_in_order() {
    let mut s = KoreanInputState::new();
    let text: Vec<char> = "aㅎㅏㄴㄱㅡㄹ b".chars().collect();
    let (out, stopped) = s.process_text(&text);
    assert_eq!(stopped, None);
    assert_eq!(out, vec!['a', '한', '글', ' ', 'b']);
    assert!(!s.is_composing);
    let (out, stopped) = s.process_text(&"ㄱㅏㅓ".chars().collect());
    assert_eq!(stopped, None);
    assert_eq!(out, vec!['가', 'ㅓ']);
    assert!(!s.is_composing);
    let (out, stopped) = s.process_text(&"ㄷㅏ".chars().collect());
    assert_eq!(stopped, None);
    assert!(out.is_empty());
    assert_eq!(s.get_current_char(), Some('다'));
}

#[test]
fn process_text_stops_at_a_character_it_cannot_handle() {
    let mut s = KoreanInputState::new();
    let text: Vec<char> = "xㄳㅏㄴㅏy".chars().collect();
    let (out, stopped) = s.process_text(&text);
    assert_eq!(stopped, Some(4));
    assert_eq!(out, vec!['x']);
    assert!(s.is_composing);
    assert_eq!(s.jongsung, Some('ㄴ'));
}
