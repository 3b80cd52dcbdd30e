use banned_words::censor::{censor_message, censor_token, spells_any, star_text};
use banned_words::detect::{
    detect_banned, detect_in, leet_translate, strip_all_spaces, token_spells, Variant,
};
use banned_words::list::split_entries;
use banned_words::text::{contains, is_text, split_words, to_ascii_lower, to_chars};

fn banned() -> Vec<String> {
    vec!["badword".to_string(), "shoot".to_string()]
}

fn list(words: &[&str]) -> Vec<String> {
    words.iter().map(|w| w.to_string()).collect()
}

fn chars(s: &str) -> Vec<char> {
    s.chars().collect()
}

#[test]
fn detects_exact_match() {
    let (w, variant) = detect_banned("you are a badword", &banned()).unwrap();
    assert_eq!(w, "badword");
    assert_eq!(variant, "exact");
}

#[test]
fn detects_leet() {
    assert!(detect_banned("b4dw0rd", &banned()).is_some());
}

#[test]
fn detects_no_spaces() {
    assert!(detect_banned("b a d w o r d", &banned()).is_some());
    assert!(detect_banned("b_a_d_w_o_r_d", &banned()).is_some());
}

#[test]
fn case_insensitive() {
    let (w, _) = detect_banned("BADWORD", &banned()).unwrap();
    assert_eq!(w, "badword");
}

#[test]
fn clean_message_is_none() {
    assert!(detect_banned("hello friends", &banned()).is_none());
}

#[test]
fn censor_hard_stars_everything() {
    assert_eq!(censor_token("badword", "hard", ""), "*******");
}

#[test]
fn censor_soft_keeps_ends() {
    assert_eq!(censor_token("badword", "soft", ""), "b*****d");
    assert_eq!(censor_token("sh", "soft", ""), "**");
}

#[test]
fn censor_replace_uses_replace_word() {
    assert_eq!(censor_token("badword", "replace", "heck"), "heck");
    assert_eq!(censor_token("badword", "replace", ""), "*******");
}

#[test]
fn censor_message_censors_matching_tokens_only() {
    let out = censor_message("badword is a word", &banned(), "hard", "");
    assert_eq!(out, "******* is a word");
}

#[test]
fn variants_are_named() {
    assert_eq!(detect_banned("b4dw0rd", &banned()), Some(("badword".to_string(), "leet")));
    assert_eq!(
        detect_banned("b_a_d_w_o_r_d", &banned()),
        Some(("badword".to_string(), "no-spaces"))
    );
    assert_eq!(
        detect_banned("xbadwordx", &banned()),
        Some(("badword".to_string(), "no-spaces"))
    );
    assert_eq!(
        detect_banned("b a d w o r d", &banned()),
        Some(("badword".to_string(), "no-spaces"))
    );
    assert_eq!(Variant::Exact.label(), "exact");
    assert_eq!(Variant::Leet.label(), "leet");
    assert_eq!(Variant::NoSpaces.label(), "no-spaces");
}

#[test]
fn first_word_of_the_list_wins() {
    let words = list(&["Shoot", "badword"]);
    assert_eq!(
        detect_banned("badword shoot", &words),
        Some(("shoot".to_string(), "exact"))
    );
    let longer = list(&["Shoot", "badword", "zebra"]);
    assert_eq!(
        detect_banned("badword shoot", &longer),
        detect_banned("badword shoot", &words)
    );
    assert_eq!(
        detect_banned("zebra", &longer),
        Some(("zebra".to_string(), "exact"))
    );
}

#[test]
fn first_token_names_the_variant() {
    let words = list(&["badword"]);
    assert_eq!(
        detect_banned("xbadword badword", &words),
        Some(("badword".to_string(), "no-spaces"))
    );
    assert_eq!(
        detect_banned("badword xbadword", &words),
        Some(("badword".to_string(), "exact"))
    );
}

#[test]
fn empty_words_and_lists_detect_nothing() {
    assert!(detect_banned("anything", &[]).is_none());
    assert!(detect_banned("anything", &list(&[""])).is_none());
    assert!(detect_banned("", &banned()).is_none());
    assert_eq!(
        detect_banned("cheese", &list(&["", "cheese"])),
        Some(("cheese".to_string(), "exact"))
    );
}

#[test]
fn case_is_ignored_beyond_ascii() {
    assert_eq!(
        detect_banned("ein ÄPFEL", &list(&["Äpfel"])),
        Some(("äpfel".to_string(), "exact"))
    );
    assert_eq!(
        detect_banned("ΟΔΟΣ", &list(&["οδος"])),
        Some(("οδος".to_string(), "exact"))
    );
    assert_eq!(
        censor_message("ein ÄPFEL da", &list(&["Äpfel"]), "hard", ""),
        "ein ***** da"
    );
    assert_eq!(
        detect_banned("BaDwOrD", &banned()),
        detect_banned("bAdWoRd", &banned())
    );
}

#[test]
fn a_word_with_a_leet_letter_is_not_translated() {
    assert_eq!(
        detect_banned("pizza", &list(&["pizza"])),
        Some(("pizza".to_string(), "exact"))
    );
    assert!(detect_banned("p1zza", &list(&["pizza"])).is_none());
    assert_eq!(
        detect_banned("p1zza", &list(&["pissa"])),
        Some(("pissa".to_string(), "leet"))
    );
}

#[test]
fn leet_table() {
    assert_eq!(leet_translate("34@01!5$7zZ"), "eaaoiisstss");
    assert_eq!(leet_translate("Hello, 9"), "hello, 9");
    let once = leet_translate("B4DW0RD z");
    assert_eq!(once, "badword s");
    assert_eq!(leet_translate(&once), once);
    assert_eq!(leet_translate("ÄB"), "Äb");
}

#[test]
fn strip_takes_spaces_and_underscores() {
    assert_eq!(strip_all_spaces(" a_b\tc\u{a0}d\u{3000}e\n"), "abcde");
    assert_eq!(strip_all_spaces("abcde"), "abcde");
    assert_eq!(strip_all_spaces(" _ "), "");
}

#[test]
fn white_space_is_that_of_char() {
    let all: String = ('\0'..=char::MAX).collect();
    let expected: String = all.chars().filter(|c| !c.is_whitespace() && *c != '_').collect();
    assert!(strip_all_spaces(&all) == expected);
}

#[test]
fn ascii_lower_is_that_of_char() {
    for c in '\0'..='\u{3ff}' {
        assert_eq!(to_ascii_lower(c), c.to_ascii_lowercase());
    }
}

#[test]
fn split_words_is_split_whitespace() {
    for s in ["", " ", "a", " a  b\tc ", "\u{2003}x\u{a0}y", "one"] {
        let expected: Vec<Vec<char>> = s.split_whitespace().map(chars).collect();
        assert_eq!(split_words(&chars(s)), expected);
    }
}

#[test]
fn contains_is_that_of_str() {
    for (hay, needle) in [
        ("", ""),
        ("", "a"),
        ("abc", ""),
        ("abc", "bc"),
        ("abc", "abcd"),
        ("aab", "ab"),
        ("abab", "ba"),
        ("abc", "ac"),
    ] {
        assert_eq!(contains(&chars(hay), &chars(needle)), hay.contains(needle));
    }
}

#[test]
fn texts_are_compared_by_characters() {
    assert!(is_text("hard", "hard"));
    assert!(!is_text("hard", "harder"));
    assert!(!is_text("hard", "hars"));
    assert_eq!(to_chars("aé"), vec!['a', 'é']);
}

#[test]
fn lower_case_forms_are_judged_alone() {
    assert_eq!(token_spells(&chars("b4d"), &chars("bad")), Some(Variant::Leet));
    assert_eq!(token_spells(&chars("bad"), &chars("bad")), Some(Variant::Exact));
    assert_eq!(token_spells(&chars("b_ad"), &chars("bad")), Some(Variant::NoSpaces));
    assert_eq!(token_spells(&chars("bed"), &chars("bad")), None);
    let words = vec![chars(""), chars("bad"), chars("ugly")];
    assert_eq!(detect_in(&chars("so ugly"), &words), Some((2, Variant::Exact)));
    assert_eq!(detect_in(&chars("b ad"), &words), Some((1, Variant::NoSpaces)));
    assert_eq!(detect_in(&chars("fine"), &words), None);
    assert!(spells_any(&chars("b4d"), &words));
    assert!(!spells_any(&chars(""), &words));
}

#[test]
fn censor_modes() {
    assert_eq!(censor_token("badword", "mid", ""), "b******");
    assert_eq!(censor_token("", "mid", ""), "");
    assert_eq!(censor_token("x", "mid", ""), "x");
    assert_eq!(censor_token("bad", "soft", ""), "b*d");
    assert_eq!(censor_token("bad", "no such mode", ""), "b*d");
    assert_eq!(censor_token("", "soft", ""), "");
    assert_eq!(censor_token("äöü", "hard", ""), "***");
    assert_eq!(censor_token("", "replace", "heck"), "heck");
    assert_eq!(star_text(0), "");
    assert_eq!(star_text(3), "***");
}

#[test]
fn white_space_of_a_message_is_kept() {
    assert_eq!(
        censor_message("  badword\t\tok \n", &banned(), "soft", ""),
        "  b*****d\t\tok \n"
    );
    assert_eq!(censor_message("", &banned(), "hard", ""), "");
    assert_eq!(
        censor_message("badword\u{a0}ok\u{3000}shoot", &banned(), "hard", ""),
        "*******\u{a0}ok\u{3000}*****"
    );
    assert_eq!(
        censor_message("my badword", &banned(), "replace", "kind word"),
        "my kind word"
    );
}

#[test]
fn censoring_goes_part_by_part() {
    let whole = censor_message("Badword and sh00t", &banned(), "mid", "");
    let left = censor_message("Badword and", &banned(), "mid", "");
    let right = censor_message("sh00t", &banned(), "mid", "");
    assert_eq!(whole, format!("{} {}", left, right));
    assert_eq!(whole, "B****** and s****");
}

#[test]
fn stars_keep_the_shape_and_settle() {
    let message = "a b4dword, Shoot_er\tBADWORD x";
    for mode in ["hard", "mid", "soft", "replace"] {
        let once = censor_message(message, &banned(), mode, "");
        assert_eq!(once.chars().count(), message.chars().count());
        for (a, b) in once.chars().zip(message.chars()) {
            assert!(a == b || (a == '*' && !b.is_whitespace()));
        }
        assert_eq!(censor_message(&once, &banned(), mode, ""), once);
    }
}

#[test]
fn undetected_messages_are_untouched() {
    let message = "Hello  friends, good\tday";
    assert!(detect_banned(message, &banned()).is_none());
    assert_eq!(censor_message(message, &banned(), "hard", ""), message);
}

#[test]
fn undetected_messages_beyond_ascii_are_untouched() {
    let words = list(&["ὀδυσσεύς", "straße", "i\u{307}"]);
    for message in ["ΣΟΦΌΣ ΣΑΣ\u{2003}ΑΣ'Σ Σ", "Ärger\u{a0}mit ΩΜΈΓΑ", "日本語 の 文"] {
        assert!(detect_banned(message, &words).is_none());
        for mode in ["hard", "mid", "soft", "replace"] {
            assert_eq!(censor_message(message, &words, mode, "x"), message);
        }
    }
    assert!(detect_banned("Ο ὈΔΥΣΣΕΎΣ ΑΥΤΌΣ", &words).is_some());
    assert!(detect_banned("ein İ da", &words).is_some());
}

#[test]
fn words_spaced_out_are_detected_but_have_no_token_to_censor() {
    assert!(detect_banned("b a d w o r d", &banned()).is_some());
    assert_eq!(
        censor_message("b a d w o r d", &banned(), "hard", ""),
        "b a d w o r d"
    );
}

#[test]
fn lists_are_split_at_commas() {
    assert_eq!(split_entries(" foo, bar baz ,,\t, qux"), list(&["foo", "bar baz", "qux"]));
    assert!(split_entries("").is_empty());
    assert!(split_entries(" , ,").is_empty());
    assert_eq!(split_entries("one"), list(&["one"]));
}

#[test]
fn every_offending_piece_is_masked_and_no_other() {
    let message = " badword ok sh00t\tBADWORDS ";
    let out = censor_message(message, &banned(), "replace", "heck");
    assert_eq!(out, " heck ok heck\theck ");
    assert_eq!(out.split(char::is_whitespace).count(), message.split(char::is_whitespace).count());
}

#[test]
fn replacing_settles_where_the_word_has_no_white_space() {
    for word in ["heck", "badword"] {
        let once = censor_message("my badword, sh00t", &banned(), "replace", word);
        assert_eq!(censor_message(&once, &banned(), "replace", word), once);
    }
    let once = censor_message("sh00t", &banned(), "replace", "a badword");
    assert_eq!(once, "a badword");
    assert_eq!(censor_message(&once, &banned(), "replace", "a badword"), "a a badword");
}
