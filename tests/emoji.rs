use wlmatrix::emoji::{emoji_to_smiley, smiley_to_emoji};

#[test]
fn test_smileys_to_emoji() {
    let smileyface = smiley_to_emoji(&String::from("hi:);)"));
    println!("emojis: {}", &smileyface);
    assert_eq!(smileyface, "hi🙂😉");
}

#[test]
fn test_emojis_to_smiley() {
    let smileyface = emoji_to_smiley(&String::from("hi🙂😉"));
    println!("smiley: {}", &smileyface);
    assert_eq!(smileyface, "hi:);)");
}

#[test]
fn text_without_smileys_is_kept() {
    assert_eq!(smiley_to_emoji(&String::from("plain text")), "plain text");
    assert_eq!(emoji_to_smiley(&String::new()), "");
}

#[test]
fn every_occurrence_is_replaced() {
    assert_eq!(smiley_to_emoji(&String::from("(L)(L) :D")), "❤️❤️ 😁");
    assert_eq!(emoji_to_smiley(&String::from("😡 and 😡")), ":@ and :@");
}
