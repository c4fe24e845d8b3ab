use bookfetch::crawl::ParsedBook;
use bookfetch::layout::{
    books_file_name, cookie_file_name, img_list_file_name, initial_html_file_name, run_dir,
    work_dirs, AUTO_BOOKS, AUTO_COOKIES, AUTO_CREDENTIALS, COOKIE_DIR, IMG_DIR, META_DIR, SVG_DIR,
};
use bookfetch::manifest::{book_data_file_name, sanitize_title, BookComplete};
use bookfetch::metadata::BookMeta;

fn record(title: &str) -> BookComplete {
    let meta = BookMeta {
        title: title.to_string(),
        sb_number: "1".to_string(),
        first_page: "1".to_string(),
        publisher: "p".to_string(),
        publisher_web: "w".to_string(),
        publisher_address: "a".to_string(),
        publisher_tel: "t".to_string(),
        publisher_mail: "m".to_string(),
        page_sizes: vec![[1, 2]],
    };
    let book = ParsedBook {
        url: "ebook/x".to_string(),
        code: "c".to_string(),
        id: "1667".to_string(),
        visibility: "all".to_string(),
        cover_url: "cover".to_string(),
        title: title.to_string(),
        publisher: "p".to_string(),
        expiry_date: "never".to_string(),
    };
    BookComplete::new("2023-05-01_12-00-00", meta, book)
}

fn reference(title: &str) -> String {
    let s = title
        .chars()
        .filter(|c| c.is_ascii_alphanumeric() || *c == ' ')
        .collect::<String>()
        .replace(" ", "_")
        .replace("/", "_")
        .replace("\\", "_")
        .replace("__", "_")
        .replace("__", "_")
        .replace("__", "_")
        .replace("__", "_")
        .replace("__", "_");
    s[..std::cmp::min(s.len(), 85)].to_string()
}

#[test]
fn a_title_becomes_letters_digits_and_underscores() {
    assert_eq!(sanitize_title("Mathematik 5"), "Mathematik_5");
    assert_eq!(sanitize_title("Das ist (k)ein Buch!"), "Das_ist_kein_Buch");
    assert_eq!(sanitize_title("a / b \\ c"), "a_b_c");
    assert_eq!(sanitize_title("Größe"), "Gre");
    assert_eq!(sanitize_title("under_score"), "underscore");
    assert_eq!(sanitize_title(""), "");
    assert_eq!(sanitize_title("    "), "_");
}

#[test]
fn long_runs_of_spaces_are_halved_five_times() {
    assert_eq!(sanitize_title(&" ".repeat(32)), "_");
    assert_eq!(sanitize_title(&" ".repeat(33)), "__");
    assert_eq!(sanitize_title(&" ".repeat(64)), "__");
    assert_eq!(sanitize_title(&" ".repeat(65)), "___");
    assert_eq!(sanitize_title("a   b"), "a_b");
}

#[test]
fn a_title_is_cut_to_85_characters() {
    let long = "x".repeat(200);
    assert_eq!(sanitize_title(&long), "x".repeat(85));
    assert_eq!(sanitize_title(&"y".repeat(85)), "y".repeat(85));
    assert_eq!(sanitize_title(&"z".repeat(84)), "z".repeat(84));
}

#[test]
fn sanitize_title_agrees_with_the_chain_of_replacements() {
    let titles = [
        "Mathematik verstehen 5, Schulbuch + E-Book",
        "  leading and trailing  ",
        "a  b   c    d     e      f",
        "tabs\tand\nnewlines",
        "__already__there__",
        "ein sehr langer Titel der bestimmt mehr als fuenfundachtzig Zeichen hat und darum gekuerzt wird",
        "ÄÖÜ äöü ß",
    ];
    for title in titles {
        assert_eq!(sanitize_title(title), reference(title));
    }
    for n in 0..140 {
        let title = format!("a{}b", " ".repeat(n));
        assert_eq!(sanitize_title(&title), reference(&title));
    }
}

#[test]
fn the_record_is_filed_under_id_time_and_title() {
    let r = record("Mathematik 5: Schulbuch");
    assert_eq!(r.timestamp, "2023-05-01_12-00-00");
    assert_eq!(r.book_meta.title, "Mathematik 5: Schulbuch");
    assert_eq!(r.parsed_book.id, "1667");
    assert_eq!(
        book_data_file_name(&r),
        "book_data_1667_2023-05-01_12-00-00_Mathematik_5_Schulbuch.json"
    );
}

#[test]
fn runs_have_their_own_directories() {
    assert_eq!(
        run_dir(SVG_DIR, "1667", "2023-05-01_12-00-00"),
        "d5s/downloads/svgs/1667/2023-05-01_12-00-00"
    );
    assert_eq!(run_dir(IMG_DIR, "7", "t"), "d5s/downloads/imgs/7/t");
    assert_eq!(run_dir("", "", ""), "//");
}

#[test]
fn files_are_named_after_the_run() {
    assert_eq!(cookie_file_name("T", "login"), "T_login.json");
    assert_eq!(books_file_name("T"), "T_books.json");
    assert_eq!(initial_html_file_name("1667", "T"), "initial_book_1667_T.html");
    assert_eq!(img_list_file_name("1667", "T"), "imgs_1667_T.json");
}

#[test]
fn the_working_directories_are_eight() {
    assert_eq!(
        work_dirs(),
        vec![
            "d5s/keys/cookies",
            "d5s/keys/credentials",
            "d5s/downloads/meta",
            "d5s/downloads/assets",
            "d5s/downloads/pdfs",
            "d5s/downloads/images",
            "d5s/downloads/svgs",
            "d5s/downloads/pages",
        ]
    );
    assert_eq!(COOKIE_DIR, "d5s/keys/cookies");
    assert_eq!(META_DIR, "d5s/downloads/meta");
    assert_eq!(AUTO_CREDENTIALS, "d5s/keys/credentials/auto_creds.json");
    assert_eq!(AUTO_COOKIES, "d5s/keys/cookies/auto_login.json");
    assert_eq!(AUTO_BOOKS, "d5s/downloads/meta/auto_books.json");
}
