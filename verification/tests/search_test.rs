use so::config::Config;
use so::error::ErrorKind;
use so::search::{
    decode_response, sort_answers, stackexchange_url, u16_string, Answer, FetchOutcome, Question,
    StackExchange,
};

fn answer(id: u32, score: i32) -> Answer {
    Answer { id, score, body: format!("answer {}", id), is_accepted: false }
}

fn config_for(site: &str, limit: u16, api_key: Option<&str>) -> Config {
    Config {
        limit,
        sites: vec![String::from(site)],
        api_key: api_key.map(String::from),
        lucky: false,
        duckduckgo: false,
    }
}

// The original keeps these two placeholders for conditions it cannot
// reproduce in a test environment.
#[test]
fn test_invalid_api_key() {
    assert!(true)
}

#[test]
fn test_invalid_filter() {
    assert!(true)
}

#[test]
fn sort_answers_is_descending_and_stable() {
    let input = vec![answer(1, 1), answer(2, 5), answer(3, 3), answer(4, 5), answer(5, -2)];
    let sorted = sort_answers(&input);
    let ids: Vec<u32> = sorted.iter().map(|a| a.id).collect();
    let scores: Vec<i32> = sorted.iter().map(|a| a.score).collect();
    assert_eq!(scores, vec![5, 5, 3, 1, -2]);
    // The two answers of score 5 keep their retrieval order: 2 before 4.
    assert_eq!(ids, vec![2, 4, 3, 1, 5]);
}

#[test]
fn search_ranks_every_question() {
    let q = Question {
        id: 7,
        score: 10,
        answers: vec![answer(1, -1), answer(2, 9), answer(3, 9)],
        title: String::from("t"),
        body: String::from("b"),
    };
    let se = StackExchange::new(config_for("stackoverflow", 20, None));
    let out = se.search(FetchOutcome::Success(vec![q])).unwrap();
    assert_eq!(out.len(), 1);
    assert_eq!(out[0].id, 7);
    assert_eq!(out[0].title, "t");
    let ids: Vec<u32> = out[0].answers.iter().map(|a| a.id).collect();
    assert_eq!(ids, vec![2, 3, 1]);
}

#[test]
fn search_surfaces_failures_verbatim() {
    let se = StackExchange::new(config_for("stackoverflow", 20, None));
    let e = se.search(FetchOutcome::TransportFailure(String::from("connection refused"))).unwrap_err();
    assert_eq!(e.kind, ErrorKind::Remote);
    assert_eq!(e.error, "connection refused");
    let e = se.search(FetchOutcome::DecodeFailure(String::from("missing field items"))).unwrap_err();
    assert_eq!(e.kind, ErrorKind::Decode);
    assert_eq!(e.error, "missing field items");
}

#[test]
fn search_params_lists_the_full_request() {
    let se = StackExchange::new(config_for("unix", 30, Some("k3y")));
    let params = se.search_params("how to sed");
    let pairs: Vec<(String, String)> = params;
    assert_eq!(pairs[0], (String::from("site"), String::from("unix")));
    assert_eq!(pairs[1].0, "filter");
    assert_eq!(pairs[1].1, ".DND5X2VHHUH8HyJzpjo)5NvdHI3w6auG");
    assert_eq!(pairs[2], (String::from("q"), String::from("how to sed")));
    assert_eq!(pairs[3], (String::from("pagesize"), String::from("30")));
    assert_eq!(pairs[4], (String::from("page"), String::from("1")));
    assert_eq!(pairs[5], (String::from("answers"), String::from("1")));
    assert_eq!(pairs[6], (String::from("order"), String::from("desc")));
    assert_eq!(pairs[7], (String::from("sort"), String::from("relevance")));
    assert_eq!(pairs[8], (String::from("key"), String::from("k3y")));
    assert_eq!(pairs.len(), 9);

    let se = StackExchange::new(config_for("unix", 30, None));
    assert_eq!(se.search_params("q").len(), 8);
}

#[test]
fn u16_string_renders_decimal() {
    assert_eq!(u16_string(0), "0");
    assert_eq!(u16_string(7), "7");
    assert_eq!(u16_string(30), "30");
    assert_eq!(u16_string(65535), "65535");
}

#[test]
fn stackexchange_url_appends_the_endpoint() {
    assert_eq!(
        stackexchange_url("search/advanced"),
        "http://api.stackexchange.com/2.2/search/advanced"
    );
    assert_eq!(stackexchange_url("sites"), "http://api.stackexchange.com/2.2/sites");
}

#[test]
fn decode_response_inflates_real_payloads() {
    let payload = b"{\"items\":[]}".to_vec();
    let mut encoder =
        flate2::write::GzEncoder::new(Vec::new(), flate2::Compression::default());
    std::io::Write::write_all(&mut encoder, &payload).unwrap();
    let compressed = encoder.finish().unwrap();
    assert_ne!(compressed, payload);
    let inflated = decode_response(&compressed).unwrap();
    assert_eq!(inflated, payload);
}

#[test]
fn decode_response_rejects_garbage() {
    let e = decode_response(&vec![1, 2, 3, 4]).unwrap_err();
    assert_eq!(e.kind, ErrorKind::Decode);
}
