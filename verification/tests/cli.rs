use catdog::{render_all, render_escaped, render_plain, Config, InputLine, SourceInput};

const FOX: [&str; 1] = ["The quick brown fox jumps over the lazy dog."];

const SPIDERS: [&str; 3] = ["Don't worry, spiders,", "I keep house", "casually."];

const BUSTLE: [&str; 9] = [
    "The bustle in a house",
    "The morning after death",
    "Is solemnest of industries",
    "Enacted upon earth,\u{2014}",
    "",
    "The sweeping up the heart,",
    "And putting love away",
    "We shall not want to use again",
    "Until eternity.",
];

fn lines_of(strs: &[&str]) -> Vec<InputLine> {
    strs.iter()
        .map(|s| InputLine::Text(s.as_bytes().to_vec()))
        .collect()
}

fn bytes_of(strs: &[&str]) -> Vec<u8> {
    let mut out = Vec::new();
    for s in strs {
        out.extend_from_slice(s.as_bytes());
        out.push(b'\n');
    }
    out
}

fn strings(out: &[Vec<u8>]) -> Vec<String> {
    out.iter()
        .map(|l| String::from_utf8(l.clone()).unwrap())
        .collect()
}

fn plain(strs: &[&str]) -> Vec<String> {
    strings(&render_plain(&lines_of(strs), false, false))
}

fn numbered_all(strs: &[&str]) -> Vec<String> {
    strings(&render_plain(&lines_of(strs), true, false))
}

fn numbered_nonblank(strs: &[&str]) -> Vec<String> {
    strings(&render_plain(&lines_of(strs), false, true))
}

fn escaped(strs: &[&str]) -> Vec<String> {
    strings(&render_escaped(&bytes_of(strs), false))
}

fn num(n: usize, s: &str) -> String {
    format!("{:>6}\t{}", n, s)
}

// --------------------------------------------------
#[test]
fn bustle_stdin() {
    assert_eq!(plain(&BUSTLE), BUSTLE.to_vec());
}

// --------------------------------------------------
#[test]
fn bustle_stdin_e() {
    assert_eq!(
        escaped(&BUSTLE),
        vec![
            "The bustle in a house$",
            "The morning after death$",
            "Is solemnest of industries$",
            "Enacted upon earth,M-bM-^@M-^T$",
            "$",
            "The sweeping up the heart,$",
            "And putting love away$",
            "We shall not want to use again$",
            "Until eternity.$",
        ]
    );
}

// --------------------------------------------------
#[test]
fn bustle_stdin_n() {
    let expected: Vec<String> = BUSTLE
        .iter()
        .enumerate()
        .map(|(i, s)| num(i + 1, s))
        .collect();
    assert_eq!(numbered_all(&BUSTLE), expected);
}

// --------------------------------------------------
#[test]
fn bustle_stdin_b() {
    assert_eq!(
        numbered_nonblank(&BUSTLE),
        vec![
            num(1, "The bustle in a house"),
            num(2, "The morning after death"),
            num(3, "Is solemnest of industries"),
            num(4, "Enacted upon earth,\u{2014}"),
            String::new(),
            num(5, "The sweeping up the heart,"),
            num(6, "And putting love away"),
            num(7, "We shall not want to use again"),
            num(8, "Until eternity."),
        ]
    );
}

// --------------------------------------------------
#[test]
fn empty() {
    assert_eq!(plain(&[]), Vec::<String>::new());
}

// --------------------------------------------------
#[test]
fn empty_n() {
    assert_eq!(numbered_all(&[]), Vec::<String>::new());
}

// --------------------------------------------------
#[test]
fn empty_b() {
    assert_eq!(numbered_nonblank(&[]), Vec::<String>::new());
}

// --------------------------------------------------
#[test]
fn fox() {
    assert_eq!(plain(&FOX), FOX.to_vec());
}

// --------------------------------------------------
#[test]
fn fox_n() {
    assert_eq!(numbered_all(&FOX), vec![num(1, FOX[0])]);
}

// --------------------------------------------------
#[test]
fn fox_b() {
    assert_eq!(numbered_nonblank(&FOX), vec![num(1, FOX[0])]);
}

// --------------------------------------------------
#[test]
fn fox_e() {
    assert_eq!(
        escaped(&FOX),
        vec!["The quick brown fox jumps over the lazy dog.$"]
    );
}

// --------------------------------------------------
#[test]
fn spiders() {
    assert_eq!(plain(&SPIDERS), SPIDERS.to_vec());
}

// --------------------------------------------------
#[test]
fn spiders_n() {
    assert_eq!(
        numbered_all(&SPIDERS),
        vec![
            num(1, "Don't worry, spiders,"),
            num(2, "I keep house"),
            num(3, "casually."),
        ]
    );
}

// --------------------------------------------------
#[test]
fn spiders_b() {
    assert_eq!(numbered_all(&SPIDERS), numbered_nonblank(&SPIDERS));
}

// --------------------------------------------------
#[test]
fn spiders_e() {
    assert_eq!(
        escaped(&SPIDERS),
        vec!["Don't worry, spiders,$", "I keep house$", "casually.$"]
    );
}

// --------------------------------------------------
#[test]
fn bustle() {
    assert_eq!(plain(&BUSTLE), BUSTLE.to_vec());
}

// --------------------------------------------------
#[test]
fn bustle_n() {
    let expected: Vec<String> = BUSTLE
        .iter()
        .enumerate()
        .map(|(i, s)| num(i + 1, s))
        .collect();
    assert_eq!(numbered_all(&BUSTLE), expected);
}

// --------------------------------------------------
#[test]
fn bustle_b() {
    assert_eq!(numbered_nonblank(&BUSTLE), {
        let mut expected = Vec::new();
        let mut cnt: usize = 0;
        for s in &BUSTLE {
            if s.is_empty() {
                expected.push(String::new());
            } else {
                cnt += 1;
                expected.push(num(cnt, s));
            }
        }
        expected
    });
}

// --------------------------------------------------
#[test]
fn bustle_e() {
    assert_eq!(numbered_nonblank(&BUSTLE), {
        let mut expected = Vec::new();
        let mut cnt: usize = 0;
        for s in &BUSTLE {
            if s.is_empty() {
                expected.push(String::new());
            } else {
                cnt += 1;
                expected.push(num(cnt, s));
            }
        }
        expected
    });
}

// --------------------------------------------------
fn all_sources_lines() -> Vec<SourceInput> {
    vec![
        SourceInput::Lines(lines_of(&FOX)),
        SourceInput::Lines(lines_of(&SPIDERS)),
        SourceInput::Lines(lines_of(&BUSTLE)),
    ]
}

fn config(number: bool, nonblank: bool, escape: bool) -> Config {
    let files = vec![
        "tests/inputs/fox.txt".to_string(),
        "tests/inputs/spiders.txt".to_string(),
        "tests/inputs/the-bustle.txt".to_string(),
    ];
    Config::new(files, number, nonblank, escape).unwrap()
}

// --------------------------------------------------
#[test]
fn all() {
    let r = render_all(&all_sources_lines(), &config(false, false, false));
    let mut expected: Vec<String> = Vec::new();
    expected.extend(plain(&FOX));
    expected.extend(plain(&SPIDERS));
    expected.extend(plain(&BUSTLE));
    assert_eq!(strings(&r.out), expected);
    assert!(r.errors.is_empty());
}

// --------------------------------------------------
#[test]
fn all_n() {
    let r = render_all(&all_sources_lines(), &config(true, false, false));
    let mut expected: Vec<String> = Vec::new();
    expected.extend(numbered_all(&FOX));
    expected.extend(numbered_all(&SPIDERS));
    expected.extend(numbered_all(&BUSTLE));
    assert_eq!(strings(&r.out), expected);
}

// --------------------------------------------------
#[test]
fn all_b() {
    let r = render_all(&all_sources_lines(), &config(false, true, false));
    let mut expected: Vec<String> = Vec::new();
    expected.extend(numbered_nonblank(&FOX));
    expected.extend(numbered_nonblank(&SPIDERS));
    expected.extend(numbered_nonblank(&BUSTLE));
    assert_eq!(strings(&r.out), expected);
}

// --------------------------------------------------
#[test]
fn all_e() {
    let sources = vec![
        SourceInput::Bytes(bytes_of(&FOX)),
        SourceInput::Bytes(bytes_of(&SPIDERS)),
        SourceInput::Bytes(bytes_of(&BUSTLE)),
    ];
    let r = render_all(&sources, &config(false, false, true));
    let mut expected: Vec<String> = Vec::new();
    expected.extend(escaped(&FOX));
    expected.extend(escaped(&SPIDERS));
    expected.extend(escaped(&BUSTLE));
    assert_eq!(strings(&r.out), expected);
}

// --------------------------------------------------
#[test]
fn skips_bad_file() {
    let bad = "Ab3kQz9";
    let msg = "No such file or directory (os error 2)";
    let sources = vec![
        SourceInput::Lines(lines_of(&FOX)),
        SourceInput::Failed(bad.as_bytes().to_vec(), msg.as_bytes().to_vec()),
        SourceInput::Lines(lines_of(&SPIDERS)),
    ];
    let cfg = Config::new(vec![bad.to_string()], false, false, false).unwrap();
    let r = render_all(&sources, &cfg);
    let mut expected: Vec<String> = Vec::new();
    expected.extend(plain(&FOX));
    expected.extend(plain(&SPIDERS));
    assert_eq!(strings(&r.out), expected);
    assert_eq!(
        strings(&r.errors),
        vec![format!("{}: {}", bad, msg)]
    );
}
