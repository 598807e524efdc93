use dbot::split::split_message;

fn words_of(chunks: &[String]) -> Vec<String> {
    let mut words = Vec::new();
    for chunk in chunks {
        for word in chunk.split_whitespace() {
            words.push(word.to_string());
        }
    }
    words
}

#[test]
fn short_text_is_sent_whole() {
    assert_eq!(split_message("hola  hijo", 10), vec!["hola  hijo".to_string()]);
    assert_eq!(split_message("", 0), vec!["".to_string()]);
    // ten characters, though more bytes
    assert_eq!(split_message("ñññññ ññññ", 10), vec!["ñññññ ññññ".to_string()]);
}

#[test]
fn long_text_is_split_between_words() {
    assert_eq!(
        split_message("uno dos  tres cuatro cinco", 9),
        vec!["uno dos".to_string(), "tres".to_string(), "cuatro".to_string(), "cinco".to_string()]
    );
    assert_eq!(
        split_message("aa bb cc dd", 5),
        vec!["aa bb".to_string(), "cc dd".to_string()]
    );
}

#[test]
fn length_is_counted_in_bytes_when_splitting() {
    // "ñ ñ" takes five bytes, a third word would make it eight
    assert_eq!(
        split_message("ñ ñ ñ ñ", 6),
        vec!["ñ ñ".to_string(), "ñ ñ".to_string()]
    );
}

#[test]
fn a_word_longer_than_the_limit_stays_whole() {
    assert_eq!(
        split_message("a bbbbbbbb c", 4),
        vec!["a".to_string(), "bbbbbbbb".to_string(), "c".to_string()]
    );
}

#[test]
fn nothing_but_space_is_not_sent() {
    assert_eq!(split_message("     ", 3), Vec::<String>::new());
}

#[test]
fn splitting_keeps_words_and_limits() {
    let text = "Ay hijo mío, cuando yo era joven íbamos andando a la escuela. ".repeat(90);
    let chunks = split_message(&text, 1900);
    let words: Vec<String> = text.split_whitespace().map(|w| w.to_string()).collect();
    assert_eq!(words_of(&chunks), words);
    assert!(chunks.len() > 1);
    for i in 0..chunks.len() {
        assert!(chunks[i].len() <= 1900);
        if i + 1 < chunks.len() {
            let next = chunks[i + 1].split_whitespace().next().unwrap();
            assert!(chunks[i].len() + 1 + next.len() > 1900);
        }
    }
}

#[test]
fn chunks_are_as_few_as_can_be() {
    let text = "aaa bb c dddd e ff ggg hhhhhhhhhh i jj";
    let mut before = usize::MAX;
    for max in 1..40 {
        let n = split_message(text, max).len();
        assert!(n <= before);
        before = n;
    }
    assert_eq!(before, 1);
    // "aaa bb", "c dddd", "e ff", "ggg", the long word, "i jj"
    assert_eq!(split_message(text, 6).len(), 6);
    // White space alone is a chunk only where it is short enough to be sent.
    assert_eq!(split_message("   ", 2).len(), 0);
    assert_eq!(split_message("   ", 3).len(), 1);
}
