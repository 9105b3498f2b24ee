use conduit::slug::slugify;

#[test]
fn words_are_lowercased_and_dashed() {
    assert_eq!(slugify("Hello World"), "hello-world");
    assert_eq!(slugify("How to train your Dragon 2"), "how-to-train-your-dragon-2");
}

#[test]
fn runs_of_separators_collapse() {
    assert_eq!(slugify("  Many   spaces, and punctuation!  "), "many-spaces-and-punctuation");
    assert_eq!(slugify(""), "");
    assert_eq!(slugify("?!"), "");
}

#[test]
fn accents_are_dropped() {
    assert_eq!(slugify("Café Olé à la crème"), "cafe-ole-a-la-creme");
    assert_eq!(slugify("Señor Ñandú"), "senor-andu");
}

#[test]
fn apostrophes_become_nul() {
    assert_eq!(slugify("Don't panic"), "don\0t-panic");
}
