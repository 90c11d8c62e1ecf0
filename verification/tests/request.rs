use http_request::Body;
use http_request::HeaderError;
use http_request::HeaderName;
use http_request::HeaderValue;
use http_request::Method;
use http_request::Mime;
use http_request::Request;
use http_request::Url;

fn example_url() -> Url {
    Url::from_string(String::from("https://example.test/"))
}

fn name(s: &str) -> HeaderName {
    HeaderName::from_string(String::from(s)).unwrap()
}

fn value(s: &str) -> HeaderValue {
    HeaderValue::new(String::from(s))
}

/// Drain a request's body through its stream interface.
fn drain(req: &mut Request) -> Vec<u8> {
    let mut out = Vec::new();
    loop {
        let chunk = req.fill_buf().to_vec();
        if chunk.is_empty() {
            return out;
        }
        req.consume(chunk.len());
        out.extend(chunk);
    }
}

/// Drain a bare body handle.
fn drain_body(body: &mut Body) -> Vec<u8> {
    let mut out = Vec::new();
    loop {
        let chunk = body.fill_buf().to_vec();
        if chunk.is_empty() {
            return out;
        }
        body.consume(chunk.len());
        out.extend(chunk);
    }
}

#[test]
fn fresh_request_is_empty() {
    let mut req = Request::new(Method::Get, example_url());
    assert_eq!(req.len(), Some(0));
    assert_eq!(req.headers().entry_count(), 0);
    assert!(req.fill_buf().is_empty());
    assert_eq!(drain(&mut req), Vec::<u8>::new());
}

#[test]
fn method_and_url_are_kept() {
    let req = Request::new(Method::Post, example_url());
    assert_eq!(*req.method(), Method::Post);
    assert_eq!(req.method().as_str(), "POST");
    assert_eq!(req.url().as_str(), "https://example.test/");
}

#[test]
fn set_body_string_sets_bytes_length_and_mime() {
    let mut req = Request::new(Method::Put, example_url());
    req.set_body_string(String::from("grüße, welt")).unwrap();
    let expected = "grüße, welt".as_bytes().to_vec();
    assert_eq!(req.len(), Some(expected.len()));
    let ct = req.header(&name("content-type")).unwrap();
    assert_eq!(ct.len(), 1);
    assert_eq!(ct[0].as_str(), "text/plain; charset=utf-8");
    assert_eq!(drain(&mut req), expected);
}

#[test]
fn set_body_bytes_sets_bytes_length_and_mime() {
    let mut req = Request::new(Method::Put, example_url());
    let payload = vec![0u8, 7, 13, 255, 128, 0];
    req.set_body_bytes(&payload).unwrap();
    assert_eq!(req.len(), Some(6));
    let ct = req.header(&name("Content-Type")).unwrap();
    assert_eq!(ct.len(), 1);
    assert_eq!(ct[0].as_str(), "application/octet-stream");
    assert_eq!(drain(&mut req), payload);
}

#[test]
fn replacing_a_body_discards_the_first() {
    let mut req = Request::new(Method::Post, example_url());
    req.set_body_string(String::from("first body")).unwrap();
    let second = vec![1u8, 2, 3];
    req.set_body_bytes(&second).unwrap();
    assert_eq!(req.len(), Some(3));
    assert_eq!(drain(&mut req), second);
}

#[test]
fn into_body_reader_yields_the_same_bytes() {
    let mut left = Request::new(Method::Get, example_url());
    left.set_body_string(String::from("stream me")).unwrap();
    let mut right = Request::new(Method::Get, example_url());
    right.set_body_string(String::from("stream me")).unwrap();

    let drained_in_place = drain(&mut left);
    let mut handle = right.into_body_reader();
    assert_eq!(drain_body(&mut handle), drained_in_place);
    assert_eq!(drained_in_place, b"stream me".to_vec());
}

#[test]
fn header_round_trip_and_replacement() {
    let mut req = Request::new(Method::Get, example_url());
    let prev = req.set_header(name("X-Count"), vec![value("one")]).unwrap();
    assert!(prev.is_none());
    let got = req.header(&name("x-count")).unwrap();
    assert_eq!(got.len(), 1);
    assert_eq!(got[0].as_str(), "one");

    let prev = req.set_header(name("x-COUNT"), vec![value("two")]).unwrap();
    let prev = prev.unwrap();
    assert_eq!(prev.len(), 1);
    assert_eq!(prev[0].as_str(), "one");
    let got = req.header(&name("X-Count")).unwrap();
    assert_eq!(got.len(), 1);
    assert_eq!(got[0].as_str(), "two");
}

#[test]
fn header_names_are_case_insensitive_and_normalized() {
    let n = name("X-Mixed-CASE");
    assert_eq!(n.as_bytes().as_slice(), b"x-mixed-case");
    let mut req = Request::new(Method::Get, example_url());
    req.set_header(n, vec![value("v")]).unwrap();
    assert!(req.header(&name("x-mixed-case")).is_some());
    assert!(req.header(&name("X-MIXED-CASE")).is_some());
    assert!(req.header(&name("x-other")).is_none());
}

#[test]
fn hello_scenario() {
    let mut req = Request::new(Method::Get, example_url());
    req.set_body_string(String::from("hello")).unwrap();
    assert_eq!(req.len(), Some(5));
    let ct = req.header(&name("content-type")).unwrap();
    assert_eq!(ct[0].as_str(), "text/plain; charset=utf-8");
    assert_eq!(drain(&mut req), vec![b'h', b'e', b'l', b'l', b'o']);
}

#[test]
fn set_len_overrides_independently_of_the_body() {
    let req = Request::new(Method::Get, example_url());
    let mut req = req.set_len(42);
    assert_eq!(req.len(), Some(42));
    assert_eq!(drain(&mut req), Vec::<u8>::new());
}

#[test]
fn set_body_reader_leaves_the_length_hint_alone() {
    let mut req = Request::new(Method::Get, example_url());
    req.set_body_reader(Body::from_bytes(vec![9u8, 9, 9]));
    assert_eq!(req.len(), Some(0));
    assert_eq!(drain(&mut req), vec![9u8, 9, 9]);
}

#[test]
fn empty_header_name_is_rejected() {
    let r = HeaderName::from_string(String::new());
    assert_eq!(r.unwrap_err(), HeaderError::InvalidName);
}

#[test]
fn header_name_with_blank_or_control_is_rejected() {
    assert_eq!(
        HeaderName::from_string(String::from("bad name")).unwrap_err(),
        HeaderError::InvalidName
    );
    assert_eq!(
        HeaderName::from_string(String::from("bad\nname")).unwrap_err(),
        HeaderError::InvalidName
    );
}

#[test]
fn malformed_header_value_fails_and_changes_nothing() {
    let mut req = Request::new(Method::Get, example_url());
    req.set_header(name("x-ok"), vec![value("fine")]).unwrap();
    let err = req
        .set_header(name("x-ok"), vec![value("bad\r\nvalue")])
        .unwrap_err();
    assert_eq!(err, HeaderError::InvalidValue);
    let got = req.header(&name("x-ok")).unwrap();
    assert_eq!(got.len(), 1);
    assert_eq!(got[0].as_str(), "fine");
}

#[test]
fn header_value_validity() {
    assert!(value("plain text, with spaces\tand tab").is_valid());
    assert!(!value("newline\n").is_valid());
    assert!(!value("del\u{7f}").is_valid());
}

#[test]
fn mime_values() {
    assert_eq!(Mime::plain().as_str(), "text/plain; charset=utf-8");
    assert_eq!(Mime::byte_stream().as_str(), "application/octet-stream");
    let custom = Mime::from_string(String::from("application/json")).unwrap();
    assert_eq!(custom.as_str(), "application/json");
    assert_eq!(custom.into_value().as_str(), "application/json");
    assert_eq!(
        Mime::from_string(String::from("bad\u{1}mime")).unwrap_err(),
        HeaderError::InvalidValue
    );
}

#[test]
fn set_mime_replaces_the_content_type() {
    let mut req = Request::new(Method::Get, example_url());
    let prev = req.set_mime(Mime::plain()).unwrap();
    assert!(prev.is_none());
    let prev = req.set_mime(Mime::byte_stream()).unwrap().unwrap();
    assert_eq!(prev[0].as_str(), "text/plain; charset=utf-8");
    let ct = req.header(&name("content-type")).unwrap();
    assert_eq!(ct[0].as_str(), "application/octet-stream");
}

#[test]
fn iteration_keeps_insertion_order() {
    let mut req = Request::new(Method::Get, example_url());
    req.set_header(name("x-first"), vec![value("1")]).unwrap();
    req.set_header(name("x-second"), vec![value("2"), value("two")])
        .unwrap();
    req.set_header(name("X-First"), vec![value("one")]).unwrap();
    let entries = req.iter();
    assert_eq!(entries.len(), 2);
    assert_eq!(entries[0].0.as_bytes().as_slice(), b"x-first");
    assert_eq!(entries[0].1[0].as_str(), "one");
    assert_eq!(entries[1].0.as_bytes().as_slice(), b"x-second");
    assert_eq!(entries[1].1.len(), 2);
    assert_eq!(entries[1].1[1].as_str(), "two");
}

#[test]
fn get_mut_and_iter_mut_edit_values_in_place() {
    let mut req = Request::new(Method::Get, example_url());
    req.set_header(name("x-tags"), vec![value("a")]).unwrap();
    {
        let vals = req.get_mut(&name("x-tags")).unwrap();
        vals.push(value("b"));
    }
    assert_eq!(req.header(&name("x-tags")).unwrap().len(), 2);
    assert!(req.get_mut(&name("x-missing")).is_none());
    {
        let vals = req.iter_mut(0);
        vals.clear();
        vals.push(value("c"));
    }
    let got = req.header(&name("x-tags")).unwrap();
    assert_eq!(got.len(), 1);
    assert_eq!(got[0].as_str(), "c");
}

#[test]
fn body_partial_consumption() {
    let mut body = Body::from_bytes(vec![1u8, 2, 3, 4, 5]);
    assert_eq!(body.bytes_left(), 5);
    assert_eq!(body.fill_buf(), &[1u8, 2, 3, 4, 5][..]);
    body.consume(2);
    assert_eq!(body.fill_buf(), &[3u8, 4, 5][..]);
    assert_eq!(body.bytes_left(), 3);
    body.consume(3);
    assert!(body.fill_buf().is_empty());
    assert_eq!(body.bytes_left(), 0);
}

#[test]
fn body_copy_from_slice_copies() {
    let source = vec![10u8, 20, 30];
    let mut body = Body::copy_from_slice(&source);
    assert_eq!(drain_body(&mut body), source);
}

#[test]
fn read_max_takes_a_bounded_prefix() {
    let mut req = Request::new(Method::Get, example_url());
    req.set_body_bytes(&[1u8, 2, 3, 4, 5]).unwrap();
    assert_eq!(req.read_max(2), vec![1u8, 2]);
    assert_eq!(req.read_max(0), Vec::<u8>::new());
    assert_eq!(req.read_max(10), vec![3u8, 4, 5]);
    assert_eq!(req.read_max(10), Vec::<u8>::new());
}

#[test]
fn body_drain_to_vec_takes_everything() {
    let mut body = Body::from_bytes(vec![5u8, 6, 7]);
    body.consume(1);
    assert_eq!(body.drain_to_vec(), vec![6u8, 7]);
    assert_eq!(body.bytes_left(), 0);
    assert_eq!(body.drain_to_vec(), Vec::<u8>::new());
}

#[test]
fn headers_mut_gives_direct_access() {
    let mut req = Request::new(Method::Get, example_url());
    req.headers_mut()
        .insert(name("x-direct"), vec![value("yes")])
        .unwrap();
    assert_eq!(req.header(&name("x-direct")).unwrap()[0].as_str(), "yes");
}

#[test]
fn into_headers_consumes_the_request() {
    let mut req = Request::new(Method::Get, example_url());
    req.set_header(name("x-a"), vec![value("1")]).unwrap();
    req.set_header(name("x-b"), vec![value("2")]).unwrap();
    let entries = req.into_headers().into_entries();
    let mut seen = Vec::new();
    for (n, vs) in entries {
        seen.push((
            String::from_utf8(n.as_bytes().clone()).unwrap(),
            vs[0].as_str().to_string(),
        ));
    }
    assert_eq!(
        seen,
        vec![
            (String::from("x-a"), String::from("1")),
            (String::from("x-b"), String::from("2")),
        ]
    );
}

#[test]
fn url_keeps_its_text() {
    let url = example_url();
    assert_eq!(url.as_str(), "https://example.test/");
    let copy = url.clone();
    assert_eq!(copy.as_str(), url.as_str());
}
