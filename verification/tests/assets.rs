use bookfetch::assets::{
    asset_file_name, asset_from_reference, assets_from_matches, book_base, get_img_name,
    get_img_urls, page_assets, AssetDownloader, AssetFile, Img, ImgType, SvgPage,
};
use bookfetch::errors::{DownloadError, ParseError};

fn img(url: &str, page_number: usize, img_number: usize, img_type: ImgType) -> Img {
    Img {
        url: url.to_string(),
        page_number,
        img_number,
        img_type,
    }
}

fn svg(stem: &str, text: &str) -> SvgPage {
    SvgPage {
        stem: stem.to_string(),
        text: text.to_string(),
    }
}

fn groups(texts: &[&str]) -> Vec<Option<String>> {
    texts.iter().map(|t| Some(t.to_string())).collect()
}

const PAGE_THREE: &str = "<svg xmlns:xlink=\"http://www.w3.org/1999/xlink\">\
    <image xlink:href=\"shade/2.png\" width=\"10\"/>\
    <image xlink:href=\"img/7.png\" width=\"20\"/></svg>";

#[test]
fn page_three_with_one_image_and_one_shade() {
    let got = get_img_urls("1667", &vec![svg("3", PAGE_THREE)]).unwrap();
    assert_eq!(
        got,
        vec![
            img(
                "https://a.digi4school.at/ebook/1667/3/img/7.png",
                3,
                7,
                ImgType::Img
            ),
            img(
                "https://a.digi4school.at/ebook/1667/3/shade/2.png",
                3,
                2,
                ImgType::Shade
            ),
        ]
    );
    assert_eq!(page_assets("1667", "3", PAGE_THREE).unwrap(), got);
}

#[test]
fn images_come_before_shades_page_by_page() {
    let one = "xlink:href=\"shade/1.png\" xlink:href=\"img/1.png\" xlink:href=\"img/2.jpg\"";
    let two = "xlink:href=\"img/10.png\"";
    let got = get_img_urls("9", &vec![svg("2", two), svg("1", one), svg("4", "")]).unwrap();
    let kinds: Vec<(usize, usize, ImgType)> = got
        .iter()
        .map(|a| (a.page_number, a.img_number, a.img_type))
        .collect();
    assert_eq!(
        kinds,
        vec![
            (2, 10, ImgType::Img),
            (1, 1, ImgType::Img),
            (1, 2, ImgType::Img),
            (1, 1, ImgType::Shade),
        ]
    );
    assert_eq!(got[2].url, "https://a.digi4school.at/ebook/9/1/img/2.jpg");
}

#[test]
fn no_pages_and_no_references_give_no_assets() {
    assert_eq!(get_img_urls("1", &Vec::new()), Ok(Vec::new()));
    assert_eq!(get_img_urls("1", &vec![svg("1", "<svg/>")]), Ok(Vec::new()));
    assert_eq!(
        get_img_urls("1", &vec![svg("not a number", "<svg/>")]),
        Ok(Vec::new())
    );
}

#[test]
fn a_reference_without_number_is_refused() {
    assert_eq!(
        page_assets("1", "3", "xlink:href=\"img/cover.png\""),
        Err(ParseError::InvalidNumber("cover".to_string()))
    );
    assert_eq!(
        page_assets("1", "3", "xlink:href=\"img/7.png\" xlink:href=\"img/.png\""),
        Err(ParseError::InvalidNumber(String::new()))
    );
    assert_eq!(
        page_assets("1", "3", "xlink:href=\"img/1.png\" xlink:href=\"shade/x1.png\""),
        Err(ParseError::InvalidNumber("x1".to_string()))
    );
    assert_eq!(
        get_img_urls(
            "1",
            &vec![
                svg("1", "xlink:href=\"img/1.png\""),
                svg("2", "xlink:href=\"shade/b.png\""),
                svg("3", "xlink:href=\"img/a.png\""),
            ]
        ),
        Err(ParseError::InvalidNumber("b".to_string()))
    );
}

#[test]
fn a_page_without_number_is_refused() {
    assert_eq!(
        page_assets("1", "cover", "xlink:href=\"img/7.png\""),
        Err(ParseError::InvalidNumber("cover".to_string()))
    );
    assert_eq!(
        page_assets("1", "cover", "xlink:href=\"img/x.png\""),
        Err(ParseError::InvalidNumber("x".to_string()))
    );
}

#[test]
fn the_number_is_the_stem_of_the_last_segment() {
    let got = asset_from_reference("b/", "12", "img/sub/034.tar.gz", ImgType::Img).unwrap();
    assert_eq!(got, img("b/12/img/sub/034.tar.gz", 12, 34, ImgType::Img));
    let got = asset_from_reference("", "+5", "shade/+6.png", ImgType::Shade).unwrap();
    assert_eq!(got, img("+5/shade/+6.png", 5, 6, ImgType::Shade));
    let big = "99999999999999999999999999";
    assert_eq!(
        asset_from_reference("b/", "1", &format!("img/{}.png", big), ImgType::Img),
        Err(ParseError::InvalidNumber(big.to_string()))
    );
}

#[test]
fn assets_from_matches_reads_given_matches() {
    let images = vec![groups(&["w", "img/1.png"]), groups(&["w", "img/2.png"])];
    let shades = vec![groups(&["w", "shade/3.png"])];
    let got = assets_from_matches("77", "4", &images, &shades).unwrap();
    assert_eq!(
        got,
        vec![
            img("https://a.digi4school.at/ebook/77/4/img/1.png", 4, 1, ImgType::Img),
            img("https://a.digi4school.at/ebook/77/4/img/2.png", 4, 2, ImgType::Img),
            img(
                "https://a.digi4school.at/ebook/77/4/shade/3.png",
                4,
                3,
                ImgType::Shade
            ),
        ]
    );
    let none = vec![vec![Some("w".to_string()), None]];
    assert_eq!(
        assets_from_matches("77", "4", &none, &shades),
        Err(ParseError::InvalidNumber(String::new()))
    );
}

#[test]
fn book_base_ends_with_a_slash() {
    assert_eq!(book_base("1667"), "https://a.digi4school.at/ebook/1667/");
    assert_eq!(book_base(""), "https://a.digi4school.at/ebook//");
}

#[test]
fn kinds_have_their_names() {
    assert_eq!(get_img_name(&ImgType::Img), "img");
    assert_eq!(get_img_name(&ImgType::Shade), "shade");
}

#[test]
fn asset_files_are_named_by_kind_page_and_number() {
    assert_eq!(
        asset_file_name(&img("u", 3, 7, ImgType::Img)),
        "img_3_7.png"
    );
    assert_eq!(
        asset_file_name(&img("u", 120, 0, ImgType::Shade)),
        "shade_120_0.png"
    );
}

#[test]
fn assets_are_fetched_in_the_order_of_the_list() {
    let list = vec![
        img("https://x/2/img/1.png", 2, 1, ImgType::Img),
        img("https://x/1/shade/9.png", 1, 9, ImgType::Shade),
        img("https://x/1/img/4.png", 1, 4, ImgType::Img),
    ];
    let mut d = AssetDownloader::new(list.clone());
    let mut asked = Vec::new();
    let mut stored = Vec::new();
    while let Some(asset) = d.next_request() {
        asked.push(asset.url.clone());
        stored.push(d.record(200).unwrap().unwrap());
    }
    assert_eq!(
        asked,
        vec![
            "https://x/2/img/1.png",
            "https://x/1/shade/9.png",
            "https://x/1/img/4.png"
        ]
    );
    assert_eq!(
        stored,
        vec![
            AssetFile {
                index: 0,
                file_name: "img_2_1.png".to_string()
            },
            AssetFile {
                index: 1,
                file_name: "shade_1_9.png".to_string()
            },
            AssetFile {
                index: 2,
                file_name: "img_1_4.png".to_string()
            },
        ]
    );
    assert_eq!(d.assets_done(), 3);
    assert_eq!(d.record(200), Ok(None));
}

#[test]
fn a_failing_asset_ends_the_download() {
    let list = vec![
        img("a", 1, 1, ImgType::Img),
        img("b", 1, 2, ImgType::Img),
        img("c", 1, 3, ImgType::Img),
    ];
    let mut d = AssetDownloader::new(list);
    assert_eq!(d.next_request().map(|a| a.url.as_str()), Some("a"));
    assert!(d.record(200).is_ok());
    assert_eq!(d.next_request().map(|a| a.url.as_str()), Some("b"));
    assert_eq!(d.record(403), Err(DownloadError::HttpStatus(403)));
    assert_eq!(d.next_request(), None);
    assert_eq!(d.record(200), Ok(None));
    assert_eq!(d.assets_done(), 1);
    let mut empty = AssetDownloader::new(Vec::new());
    assert_eq!(empty.next_request(), None);
    assert_eq!(empty.record(200), Ok(None));
}

#[test]
fn pages_are_put_in_the_order_of_their_numbers() {
    let pages = vec![
        svg("10", "ten"),
        svg("2", "two"),
        svg("x", "first without number"),
        svg("1", "one"),
        svg("2", "two again"),
        svg("", "second without number"),
        svg("007", "seven"),
    ];
    let sorted = bookfetch::order::sort_pages(pages);
    let texts: Vec<&str> = sorted.iter().map(|p| p.text.as_str()).collect();
    assert_eq!(
        texts,
        vec![
            "one",
            "two",
            "two again",
            "seven",
            "ten",
            "first without number",
            "second without number"
        ]
    );
    assert_eq!(bookfetch::order::sort_pages(Vec::new()), Vec::new());
}

#[test]
fn sorted_pages_give_sorted_assets() {
    let pages = vec![
        svg("3", "xlink:href=\"img/1.png\""),
        svg("1", "xlink:href=\"img/2.png\""),
        svg("2", "xlink:href=\"shade/3.png\""),
    ];
    let found = get_img_urls("5", &bookfetch::order::sort_pages(pages)).unwrap();
    let order: Vec<(usize, usize)> = found.iter().map(|a| (a.page_number, a.img_number)).collect();
    assert_eq!(order, vec![(1, 2), (2, 3), (3, 1)]);
}

#[test]
fn many_pages_with_many_references_are_read_in_time() {
    let mut text = String::from("<svg>");
    for n in 0..200 {
        text.push_str(&format!("<image xlink:href=\"img/{}.png\"/>", n));
        text.push_str(&format!("<image xlink:href=\"shade/{}.png\"/>", n));
    }
    text.push_str("</svg>");
    let pages: Vec<SvgPage> = (1..=300).rev().map(|p| svg(&p.to_string(), &text)).collect();
    let sorted = bookfetch::order::sort_pages(pages);
    let found = get_img_urls("1667", &sorted).unwrap();
    assert_eq!(found.len(), 300 * 400);
    assert_eq!(found[0].page_number, 1);
    assert_eq!(found[0].img_number, 0);
    assert_eq!(found[0].img_type, ImgType::Img);
    assert_eq!(found[200].img_type, ImgType::Shade);
    assert_eq!(found[300 * 400 - 1].page_number, 300);
    assert_eq!(found[300 * 400 - 1].img_number, 199);
}
