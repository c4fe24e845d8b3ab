use bookfetch::errors::ParseError;
use bookfetch::metadata::{
    extract_metadata_from_initial_html, metadata_from_matches, read_page_sizes, BookMeta,
    MISSING_FIRST_PAGE,
};

const REQUIRED: [&str; 7] = [
    "title",
    "sbnr",
    "publisher",
    "publisherweb",
    "publisheradr",
    "publishertel",
    "publishermail",
];

fn meta(name: &str, content: &str) -> String {
    format!("<meta name=\"{}\" content=\"{}\" />\n", name, content)
}

fn page(without: &str, sizes: &str) -> String {
    let mut html = String::from("<html><head>\n");
    for key in REQUIRED {
        if key != without {
            html.push_str(&meta(key, &format!("value of {}", key)));
        }
    }
    if without != "firstPage" {
        html.push_str(&meta("firstPage", "3"));
    }
    html.push_str("</head><body><script>var pages = [");
    html.push_str(sizes);
    html.push_str("];</script></body></html>");
    html
}

fn groups(texts: &[&str]) -> Vec<Option<String>> {
    texts.iter().map(|t| Some(t.to_string())).collect()
}

#[test]
fn complete_markup_gives_every_field() {
    let html = page("", "[768,1024],[800,600],[1,65535]");
    let got = extract_metadata_from_initial_html(&html).unwrap();
    let want = BookMeta {
        title: "value of title".to_string(),
        sb_number: "value of sbnr".to_string(),
        first_page: "3".to_string(),
        publisher: "value of publisher".to_string(),
        publisher_web: "value of publisherweb".to_string(),
        publisher_address: "value of publisheradr".to_string(),
        publisher_tel: "value of publishertel".to_string(),
        publisher_mail: "value of publishermail".to_string(),
        page_sizes: vec![[768, 1024], [800, 600], [1, 65535]],
    };
    assert_eq!(got, want);
    assert_eq!(got.page_count(), 3);
}

#[test]
fn page_sizes_are_as_many_as_the_pairs() {
    for n in [0usize, 1, 2, 17, 300] {
        let sizes: Vec<String> = (0..n).map(|i| format!("[{},{}]", i, i + 1)).collect();
        let html = page("", &sizes.join(","));
        let got = extract_metadata_from_initial_html(&html).unwrap();
        assert_eq!(got.page_sizes.len(), n);
        for i in 0..n {
            assert_eq!(got.page_sizes[i], [i as u16, i as u16 + 1]);
        }
    }
}

#[test]
fn markup_without_pairs_gives_no_pages() {
    let got = extract_metadata_from_initial_html(&page("", "")).unwrap();
    assert_eq!(got.page_sizes, Vec::<[u16; 2]>::new());
    assert_eq!(got.page_count(), 0);
}

#[test]
fn each_missing_key_is_named() {
    for key in REQUIRED {
        let got = extract_metadata_from_initial_html(&page(key, "[1,2]"));
        assert_eq!(got, Err(ParseError::MissingField(key.to_string())));
    }
}

#[test]
fn the_first_missing_key_is_named() {
    let html = format!("{}{}", meta("title", "t"), meta("publisher", "p"));
    assert_eq!(
        extract_metadata_from_initial_html(&html),
        Err(ParseError::MissingField("sbnr".to_string()))
    );
    assert_eq!(
        extract_metadata_from_initial_html(""),
        Err(ParseError::MissingField("title".to_string()))
    );
}

#[test]
fn missing_first_page_gives_the_sentinel() {
    let got = extract_metadata_from_initial_html(&page("firstPage", "[1,2]")).unwrap();
    assert_eq!(got.first_page, "___missing_first_page");
    assert_eq!(got.first_page, MISSING_FIRST_PAGE);
    assert_eq!(got.title, "value of title");
}

#[test]
fn a_later_tag_overrides_an_earlier_one() {
    let html = format!("{}{}", page("", "[1,2]"), meta("title", "second title"));
    let got = extract_metadata_from_initial_html(&html).unwrap();
    assert_eq!(got.title, "second title");
}

#[test]
fn a_tag_may_break_the_line_and_be_empty() {
    let html = format!(
        "{}<meta name=\"title\"\n \n content=\"\"/>",
        page("title", "[1,2]")
    );
    let got = extract_metadata_from_initial_html(&html).unwrap();
    assert_eq!(got.title, "");
}

#[test]
fn a_size_that_does_not_fit_is_refused() {
    assert_eq!(
        extract_metadata_from_initial_html(&page("", "[1,2],[65536,3],[70000,4]")),
        Err(ParseError::InvalidNumber("65536".to_string()))
    );
    assert_eq!(
        extract_metadata_from_initial_html(&page("", "[1,99999]")),
        Err(ParseError::InvalidNumber("99999".to_string()))
    );
}

#[test]
fn digits_of_another_script_are_refused() {
    assert_eq!(
        extract_metadata_from_initial_html(&page("", "[\u{0661}\u{0662},3]")),
        Err(ParseError::InvalidNumber("\u{0661}\u{0662}".to_string()))
    );
}

#[test]
fn a_bad_size_is_reported_before_a_missing_key() {
    assert_eq!(
        extract_metadata_from_initial_html(&page("title", "[65536,1]")),
        Err(ParseError::InvalidNumber("65536".to_string()))
    );
}

#[test]
fn matches_are_read_as_they_are_given() {
    let mut tags: Vec<Vec<Option<String>>> = Vec::new();
    for key in REQUIRED {
        tags.push(groups(&["<whole>", key, "x"]));
    }
    tags.push(groups(&["<whole>", "sbnr", "y"]));
    let sizes = vec![groups(&["[1,2]", "1", "2"]), groups(&["[+3,04]", "+3", "04"])];
    let got = metadata_from_matches(&tags, &sizes).unwrap();
    assert_eq!(got.sb_number, "y");
    assert_eq!(got.publisher_tel, "x");
    assert_eq!(got.first_page, MISSING_FIRST_PAGE);
    assert_eq!(got.page_sizes, vec![[1, 2], [3, 4]]);
}

#[test]
fn a_group_that_took_no_part_reads_as_empty() {
    let sizes = vec![vec![Some("[1,]".to_string()), Some("1".to_string()), None]];
    assert_eq!(
        read_page_sizes(&sizes),
        Err(ParseError::InvalidNumber(String::new()))
    );
    let short = vec![vec![Some("[".to_string())]];
    assert_eq!(
        read_page_sizes(&short),
        Err(ParseError::InvalidNumber(String::new()))
    );
    let mut tags: Vec<Vec<Option<String>>> = Vec::new();
    for key in REQUIRED {
        tags.push(vec![Some("w".to_string()), Some(key.to_string()), None]);
    }
    let got = metadata_from_matches(&tags, &Vec::new()).unwrap();
    assert_eq!(got.title, "");
}
