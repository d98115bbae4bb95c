use porter_stemmer::PorterStemmer;

#[test]
fn test_basic_stemming() {
    let mut stemmer = PorterStemmer::new();
    assert_eq!(stemmer.stem("caresses"), "caress");
    assert_eq!(stemmer.stem("ponies"), "poni");
    assert_eq!(stemmer.stem("ties"), "ti");
    assert_eq!(stemmer.stem("caress"), "caress");
    assert_eq!(stemmer.stem("cats"), "cat");
}

#[test]
fn test_complex_stemming() {
    let mut stemmer = PorterStemmer::new();
    assert_eq!(stemmer.stem("troubled"), "troubl");
    assert_eq!(stemmer.stem("troubles"), "troubl");
    assert_eq!(stemmer.stem("troubling"), "troubl");
    assert_eq!(stemmer.stem("capability"), "capabl");
    assert_eq!(stemmer.stem("marketing"), "market");
}

#[test]
fn test_participle_and_plural_scenarios() {
    let mut stemmer = PorterStemmer::new();
    assert_eq!(stemmer.stem("running"), "run");
    assert_eq!(stemmer.stem("capabilities"), "capabl");
}

#[test]
fn test_step1_eed_blocked_by_zero_measure() {
    // The stem before "eed" in "feed" is "f", whose measure is 0, so the
    // eed rule of step 1 does not fire; no later step touches the word
    // either, so it comes back whole.
    let mut stemmer = PorterStemmer::new();
    assert_eq!(stemmer.stem("feed"), "feed");
}

#[test]
fn test_step1_eed_fires_with_measure() {
    // "agreed" loses its "d" in step 1 ("agr" has measure 1); step 5 then
    // drops the final "e" of "agree", whose measure is 1 and which does not
    // end consonant-vowel-consonant.
    let mut stemmer = PorterStemmer::new();
    assert_eq!(stemmer.stem("agreed"), "agre");
}

#[test]
fn test_not_idempotent() {
    // Stemming a stem is not always a no-op: "indeed" stems to "inde",
    // and "inde" stems further to "ind".
    let mut stemmer = PorterStemmer::new();
    let once = stemmer.stem("indeed");
    assert_eq!(once, "inde");
    assert_eq!(stemmer.stem(&once), "ind");
}

#[test]
fn test_fixed_point() {
    // "caress" is a fixed point: stemming its stem changes nothing.
    let mut stemmer = PorterStemmer::new();
    let s = stemmer.stem("caress");
    assert_eq!(stemmer.stem(&s), s);
}

#[test]
fn test_short_words_unchanged() {
    let mut stemmer = PorterStemmer::new();
    assert_eq!(stemmer.stem(""), "");
    assert_eq!(stemmer.stem("a"), "a");
    assert_eq!(stemmer.stem("is"), "is");
    assert_eq!(stemmer.stem("BY"), "by");
}

#[test]
fn test_case_folding() {
    let mut stemmer = PorterStemmer::new();
    assert_eq!(stemmer.stem("Caresses"), "caress");
    assert_eq!(stemmer.stem("RUNNING"), "run");
    assert_eq!(stemmer.stem("MarKeTing"), "market");
}

#[test]
fn test_never_longer() {
    let mut stemmer = PorterStemmer::new();
    for w in ["caresses", "relational", "oscillators", "feed", "y", "controll"] {
        let s = stemmer.stem(w);
        assert!(s.chars().count() <= w.chars().count());
    }
}

#[test]
fn test_step2_table() {
    let mut stemmer = PorterStemmer::new();
    assert_eq!(stemmer.stem("relational"), "relat");
    assert_eq!(stemmer.stem("conditional"), "condit");
    assert_eq!(stemmer.stem("valenci"), "valenc");
    assert_eq!(stemmer.stem("organizer"), "organ");
    assert_eq!(stemmer.stem("operator"), "oper");
    assert_eq!(stemmer.stem("oscillators"), "oscil");
}

#[test]
fn test_step3_table() {
    let mut stemmer = PorterStemmer::new();
    assert_eq!(stemmer.stem("hopeful"), "hope");
    assert_eq!(stemmer.stem("goodness"), "good");
    assert_eq!(stemmer.stem("formalize"), "formal");
}

#[test]
fn test_step4_table() {
    let mut stemmer = PorterStemmer::new();
    assert_eq!(stemmer.stem("adjustment"), "adjust");
    assert_eq!(stemmer.stem("dependent"), "depend");
    assert_eq!(stemmer.stem("adoption"), "adopt");
    assert_eq!(stemmer.stem("activate"), "activ");
    assert_eq!(stemmer.stem("effective"), "effect");
}

#[test]
fn test_step5_rules() {
    let mut stemmer = PorterStemmer::new();
    assert_eq!(stemmer.stem("probate"), "probat");
    assert_eq!(stemmer.stem("rate"), "rate");
    assert_eq!(stemmer.stem("controll"), "control");
}

#[test]
fn test_whole_word_suffixes() {
    // Words that consist of nothing but a suffix have a stem of measure 0
    // around them, so the measured rules leave them alone.
    let mut stemmer = PorterStemmer::new();
    assert_eq!(stemmer.stem("ies"), "i");
    assert_eq!(stemmer.stem("sses"), "ss");
    assert_eq!(stemmer.stem("eed"), "eed");
}
