use bookfetch::errors::{Failure, NavigationError, NetworkError};
use bookfetch::form::{Form, FormField};
use bookfetch::http::Reply;
use bookfetch::navigate::{
    classify_page, read_page, FormNavigator, FormState, Request, Step, HOP_CEILING,
};

fn field(name: &str, value: &str) -> FormField {
    FormField {
        name: name.to_string(),
        value: value.to_string(),
    }
}

fn form(pairs: &[(&str, &str)]) -> Form {
    let mut form = Form::new();
    for (name, value) in pairs {
        form.set(name.to_string(), value.to_string());
    }
    form
}

fn redirect_page(action: &str, fields: &[(&str, &str)]) -> String {
    let mut html = format!("<html><body><form method='post' action='{}'>", action);
    for (name, value) in fields {
        html.push_str(&format!("<input name='{}' value='{}'>", name, value));
    }
    html.push_str("</form></body></html>");
    html
}

fn answer(body: &str) -> Reply {
    Reply::Answer {
        status: 200,
        body: body.to_string(),
    }
}

fn groups(texts: &[&str]) -> Vec<Option<String>> {
    texts.iter().map(|t| Some(t.to_string())).collect()
}

#[test]
fn two_hop_dance_returns_the_final_body() {
    let mut nav = FormNavigator::new(HOP_CEILING);
    let first = nav.start("https://digi4school.at/ebook/xyz").unwrap();
    assert_eq!(
        first,
        Request::Get {
            url: "https://digi4school.at/ebook/xyz".to_string()
        }
    );
    assert_eq!(nav.hops(), 1);
    let page_one = redirect_page("https://b.example/lti", &[("a", "1")]);
    let second = nav.on_reply(answer(&page_one)).unwrap();
    assert_eq!(
        second,
        Step::Send(Request::Post {
            url: "https://b.example/lti".to_string(),
            fields: form(&[("a", "1")]),
        })
    );
    assert_eq!(nav.hops(), 2);
    let done = nav.on_reply(answer("DONE")).unwrap();
    assert_eq!(done, Step::Done("DONE".to_string()));
    assert_eq!(nav.hops(), 2);
}

#[test]
fn nine_redirects_exceed_a_ceiling_of_eight() {
    let mut nav = FormNavigator::new(8);
    assert_eq!(nav.ceiling(), 8);
    nav.start("https://a.example/0").unwrap();
    let mut sent = 1;
    let mut outcome = None;
    for hop in 1..=9 {
        let page = redirect_page(&format!("https://a.example/{}", hop), &[("k", "v")]);
        match nav.on_reply(answer(&page)) {
            Ok(Step::Send(Request::Post { url, .. })) => {
                assert_eq!(url, format!("https://a.example/{}", hop));
                sent += 1;
            }
            other => {
                outcome = Some((hop, other));
                break;
            }
        }
    }
    assert_eq!(sent, 8);
    assert_eq!(nav.hops(), 8);
    assert_eq!(
        outcome,
        Some((
            8,
            Err(Failure::Navigation(NavigationError::TooManyHops { ceiling: 8 }))
        ))
    );
}

#[test]
fn eight_requests_fit_a_ceiling_of_eight() {
    let mut nav = FormNavigator::new(8);
    nav.start("https://a.example/0").unwrap();
    for hop in 1..=7 {
        let page = redirect_page(&format!("https://a.example/{}", hop), &[]);
        assert!(matches!(nav.on_reply(answer(&page)), Ok(Step::Send(_))));
    }
    assert_eq!(nav.hops(), 8);
    assert_eq!(
        nav.on_reply(answer("the reader")),
        Ok(Step::Done("the reader".to_string()))
    );
}

#[test]
fn a_ceiling_of_zero_allows_no_request() {
    let mut nav = FormNavigator::new(0);
    assert_eq!(
        nav.start("https://a.example/"),
        Err(NavigationError::TooManyHops { ceiling: 0 })
    );
    assert_eq!(nav.hops(), 0);
}

#[test]
fn a_failing_status_ends_the_dance() {
    for status in [199u16, 300, 302, 404, 500, 0, 65535] {
        let mut nav = FormNavigator::new(8);
        nav.start("https://a.example/").unwrap();
        let page = redirect_page("https://b.example/", &[("a", "1")]);
        let got = nav.on_reply(Reply::Answer { status, body: page });
        assert_eq!(got, Err(Failure::Network(NetworkError::HttpStatus(status))));
        assert_eq!(nav.hops(), 1);
    }
    for status in [200u16, 204, 299] {
        let mut nav = FormNavigator::new(8);
        nav.start("https://a.example/").unwrap();
        let got = nav.on_reply(Reply::Answer {
            status,
            body: "x".to_string(),
        });
        assert_eq!(got, Ok(Step::Done("x".to_string())));
    }
}

#[test]
fn a_request_without_answer_ends_the_dance() {
    let mut nav = FormNavigator::new(8);
    nav.start("https://a.example/").unwrap();
    assert_eq!(
        nav.on_reply(Reply::Failed),
        Err(Failure::Network(NetworkError::Transport))
    );
    assert_eq!(
        nav.on_reply(Reply::TimedOut),
        Err(Failure::Network(NetworkError::Timeout))
    );
    assert_eq!(nav.hops(), 1);
}

#[test]
fn the_last_action_names_the_address() {
    let html = "<form action='https://one.example/'></form><form action='https://two.example/'>\
                <input name='x' value=''></form>";
    assert_eq!(
        read_page(html.to_string()),
        Ok(FormState::Redirecting {
            action_url: "https://two.example/".to_string(),
            fields: form(&[("x", "")]),
        })
    );
}

#[test]
fn a_page_without_action_is_final() {
    let html = "<input name='a' value='1'> action=\"double quotes do not count\"";
    assert_eq!(
        read_page(html.to_string()),
        Ok(FormState::Final {
            body: html.to_string()
        })
    );
    assert_eq!(
        read_page(String::new()),
        Ok(FormState::Final {
            body: String::new()
        })
    );
}

#[test]
fn a_form_holds_each_name_once() {
    let html = redirect_page(
        "https://b.example/",
        &[("a", "1"), ("b", "2"), ("a", "3"), ("c", ""), ("b", "4")],
    );
    match read_page(html).unwrap() {
        FormState::Redirecting { fields, .. } => {
            assert_eq!(
                fields.fields(),
                &vec![field("a", "3"), field("c", ""), field("b", "4")]
            );
            assert_eq!(fields.len(), 3);
            assert_eq!(fields.get("a"), Some("3"));
            assert_eq!(fields.get("c"), Some(""));
            assert_eq!(fields.get("d"), None);
        }
        other => panic!("not a redirect: {:?}", other),
    }
}

#[test]
fn form_from_matches_keeps_the_last_value() {
    let matches = vec![
        groups(&["w", "token", "old"]),
        groups(&["w", "user", "u"]),
        groups(&["w", "token", "new"]),
    ];
    let got = Form::from_matches(&matches);
    assert_eq!(got.fields(), &vec![field("user", "u"), field("token", "new")]);
    assert_eq!(got, form(&[("user", "u"), ("token", "new")]));
    assert_eq!(Form::from_matches(&Vec::new()), Form::new());
    assert_eq!(Form::new().len(), 0);
}

#[test]
fn setting_a_name_again_replaces_its_value() {
    let mut f = Form::new();
    f.set("a".to_string(), "1".to_string());
    f.set("b".to_string(), "2".to_string());
    assert_eq!(f.fields(), &vec![field("a", "1"), field("b", "2")]);
    f.set("a".to_string(), "3".to_string());
    assert_eq!(f.fields(), &vec![field("b", "2"), field("a", "3")]);
    assert_eq!(f.get("a"), Some("3"));
    assert_eq!(f.get("b"), Some("2"));
    assert_eq!(f.get(""), None);
    let copy = f.clone();
    assert_eq!(copy, f);
    f.set("".to_string(), "".to_string());
    assert_eq!(f.len(), 3);
    assert_eq!(copy.len(), 2);
    assert_eq!(f.get(""), Some(""));
}

#[test]
fn classify_page_reads_given_matches() {
    let actions = vec![groups(&["action='x'", "x"]), groups(&["action='y'", "y"])];
    let inputs = vec![groups(&["w", "n", "v"])];
    assert_eq!(
        classify_page("body".to_string(), &actions, &inputs),
        FormState::Redirecting {
            action_url: "y".to_string(),
            fields: form(&[("n", "v")]),
        }
    );
    assert_eq!(
        classify_page("body".to_string(), &Vec::new(), &inputs),
        FormState::Final {
            body: "body".to_string()
        }
    );
}

#[test]
fn advance_takes_a_page_that_was_read() {
    let mut nav = FormNavigator::new(2);
    nav.start("u").unwrap();
    let redirect = FormState::Redirecting {
        action_url: "v".to_string(),
        fields: form(&[("a", "1")]),
    };
    assert_eq!(
        nav.advance(200, redirect.clone()),
        Ok(Step::Send(Request::Post {
            url: "v".to_string(),
            fields: form(&[("a", "1")]),
        }))
    );
    assert_eq!(nav.hops(), 2);
    assert_eq!(
        nav.advance(200, redirect.clone()),
        Err(Failure::Navigation(NavigationError::TooManyHops { ceiling: 2 }))
    );
    assert_eq!(
        nav.advance(503, redirect),
        Err(Failure::Network(NetworkError::HttpStatus(503)))
    );
    assert_eq!(
        nav.advance(
            200,
            FormState::Final {
                body: "b".to_string()
            }
        ),
        Ok(Step::Done("b".to_string()))
    );
    assert_eq!(nav.hops(), 2);
}
