use helium::http::{Method, StatusCode};
use helium::router::Router;
use helium::server::{
    answer, respond, Correlator, FnTask, HeliumTask, Server, TaskQueue, TaskResponse, WorkItem,
};

type Handler = FnTask<fn() -> String>;

fn index() -> String {
    "Index route".to_string()
}

fn about() -> String {
    "About".to_string()
}

fn item(key: u32, text: &str) -> WorkItem {
    WorkItem { key, bytes: text.as_bytes().to_vec() }
}

struct Teapot;

impl HeliumTask for Teapot {
    fn execute(&self) -> TaskResponse {
        TaskResponse::new(StatusCode::Gone, None)
    }
}

#[test]
fn task_response_keeps_status_and_content() {
    let r = TaskResponse::new(StatusCode::Created, Some("made".to_string()));
    assert_eq!(r.status(), StatusCode::Created);
    assert_eq!(r.content(), Some("made"));
    let empty = TaskResponse::new(StatusCode::NoContent, None);
    assert_eq!(empty.status(), StatusCode::NoContent);
    assert_eq!(empty.content(), None);
}

#[test]
fn task_response_not_found_and_parse_error() {
    let missing = TaskResponse::not_found();
    assert_eq!(missing.status(), StatusCode::NotFound);
    assert_eq!(missing.content(), None);
    let bad = TaskResponse::parse_error();
    assert_eq!(bad.status(), StatusCode::BadRequest);
    assert_eq!(bad.content(), None);
}

#[test]
fn task_response_to_text_formats_the_response() {
    let r = TaskResponse::new(StatusCode::OK, Some("Index route".to_string()));
    assert_eq!(r.to_text(), "HTTP/1.1 200 OK\r\nContent-Length: 11\r\n\r\nIndex route");
    assert_eq!(
        TaskResponse::not_found().to_text(),
        "HTTP/1.1 404 Not Found\r\nContent-Length: 0\r\n\r\n"
    );
}

#[test]
fn fn_task_answers_ok_with_the_text_of_the_function() {
    let task = FnTask::new(|| "hello".to_string());
    let r = task.execute();
    assert_eq!(r.status(), StatusCode::OK);
    assert_eq!(r.content(), Some("hello"));
}

#[test]
fn router_returns_the_registered_handler() {
    let mut router: Router<u32> = Router::new();
    router.register(Method::GET, "/x".to_string(), 7);
    assert_eq!(router.lookup(Method::GET, "/x"), Some(&7));
}

#[test]
fn router_returns_nothing_for_another_method_or_path() {
    let mut router: Router<u32> = Router::new();
    router.register(Method::GET, "/x".to_string(), 7);
    assert_eq!(router.lookup(Method::POST, "/x"), None);
    assert_eq!(router.lookup(Method::GET, "/y"), None);
    assert_eq!(router.lookup(Method::GET, "/x/"), None);
    assert_eq!(router.lookup(Method::GET, "x"), None);
    assert_eq!(router.lookup(Method::GET, ""), None);
}

#[test]
fn router_is_empty_when_new() {
    let router: Router<u32> = Router::new();
    assert_eq!(router.lookup(Method::GET, "/"), None);
}

#[test]
fn router_last_registration_wins() {
    let mut router: Router<u32> = Router::new();
    router.register(Method::GET, "/x".to_string(), 1);
    router.register(Method::POST, "/x".to_string(), 2);
    router.register(Method::GET, "/y".to_string(), 3);
    router.register(Method::GET, "/x".to_string(), 4);
    assert_eq!(router.lookup(Method::GET, "/x"), Some(&4));
    assert_eq!(router.lookup(Method::POST, "/x"), Some(&2));
    assert_eq!(router.lookup(Method::GET, "/y"), Some(&3));
}

#[test]
fn task_queue_is_first_in_first_out() {
    let mut queue = TaskQueue::new();
    assert_eq!(queue.len(), 0);
    assert!(queue.pop().is_none());
    queue.push(item(1, "a"));
    queue.push(item(2, "b"));
    queue.push(item(3, "c"));
    assert_eq!(queue.len(), 3);
    let first = queue.pop().unwrap();
    assert_eq!((first.key, first.bytes), (1, b"a".to_vec()));
    let second = queue.pop().unwrap();
    assert_eq!((second.key, second.bytes), (2, b"b".to_vec()));
    queue.push(item(4, "d"));
    assert_eq!(queue.pop().unwrap().key, 3);
    assert_eq!(queue.pop().unwrap().key, 4);
    assert!(queue.pop().is_none());
    assert_eq!(queue.len(), 0);
}

#[test]
fn correlator_hands_a_connection_out_once() {
    let mut table: Correlator<&str> = Correlator::new();
    table.insert(5, "five");
    table.insert(6, "six");
    assert_eq!(table.len(), 2);
    assert_eq!(table.take(5), Some("five"));
    assert_eq!(table.take(5), None);
    assert_eq!(table.len(), 1);
    assert_eq!(table.take(7), None);
    assert_eq!(table.take(6), Some("six"));
    assert_eq!(table.len(), 0);
}

#[test]
fn correlator_overwrites_on_a_key_collision() {
    let mut table: Correlator<&str> = Correlator::new();
    table.insert(5, "older");
    table.insert(5, "newer");
    assert_eq!(table.len(), 1);
    assert_eq!(table.take(5), Some("newer"));
    assert_eq!(table.take(5), None);
}

#[test]
fn correlator_deliver_returns_the_connection_and_the_text() {
    let mut table: Correlator<&str> = Correlator::new();
    table.insert(5, "five");
    let response = TaskResponse::new(StatusCode::OK, Some("hi".to_string()));
    assert!(table.deliver(6, &response).is_none());
    assert_eq!(table.len(), 1);
    let (conn, text) = table.deliver(5, &response).unwrap();
    assert_eq!(conn, "five");
    assert_eq!(text, "HTTP/1.1 200 OK\r\nContent-Length: 2\r\n\r\nhi");
    assert_eq!(table.len(), 0);
    assert!(table.deliver(5, &response).is_none());
}

#[test]
fn correlator_track_stores_under_the_returned_key() {
    let mut table: Correlator<u64> = Correlator::new();
    let key = table.track(99);
    assert_eq!(table.len(), 1);
    assert_eq!(table.take(key), Some(99));
    assert_eq!(table.len(), 0);
}

#[test]
fn answer_executes_the_registered_handler() {
    let mut router: Router<Handler> = Router::new();
    router.register(Method::GET, "/".to_string(), FnTask::new(index));
    let response = answer(&router, Some("GET /?a=1 HTTP/1.1\r\nHost: x\r\n\r\n"));
    assert_eq!(response.status(), StatusCode::OK);
    assert_eq!(response.content(), Some("Index route"));
}

#[test]
fn answer_distinguishes_a_missing_route_from_a_parse_error() {
    let mut router: Router<Handler> = Router::new();
    router.register(Method::GET, "/".to_string(), FnTask::new(index));
    let missing = answer(&router, Some("GET /other?a=1 HTTP/1.1\r\n\r\n"));
    assert_eq!(missing.status(), StatusCode::NotFound);
    assert_eq!(missing.content(), None);
    for broken in ["GET", "FETCH /?a=1 HTTP/1.1\r\n\r\n", "GET / HTTP/1.1\r\n\r\n", "GET /?a HTTP/1.1\r\n\r\n", "GET /?a=1 HTTP/1.1\r\n"] {
        let response = answer(&router, Some(broken));
        assert_eq!(response.status(), StatusCode::BadRequest);
        assert_eq!(response.content(), None);
    }
}

#[test]
fn answer_without_text_is_a_parse_error() {
    let mut router: Router<Handler> = Router::new();
    router.register(Method::GET, "/".to_string(), FnTask::new(index));
    let response = answer(&router, None);
    assert_eq!(response.status(), StatusCode::BadRequest);
    assert_eq!(response.content(), None);
}

#[test]
fn respond_executes_the_registered_handler() {
    let mut router: Router<Handler> = Router::new();
    router.register(Method::GET, "/".to_string(), FnTask::new(index));
    let (key, response) = respond(&router, &item(42, "GET /?a=1 HTTP/1.1\r\nHost: x\r\n\r\n"));
    assert_eq!(key, 42);
    assert_eq!(response.status(), StatusCode::OK);
    assert_eq!(response.content(), Some("Index route"));
}

#[test]
fn respond_returns_what_the_handler_returned() {
    let mut router: Router<Teapot> = Router::new();
    router.register(Method::DELETE, "pot".to_string(), Teapot);
    let (key, response) = respond(&router, &item(1, "DELETE /pot?now=1 HTTP/1.1\r\n\r\n"));
    assert_eq!(key, 1);
    assert_eq!(response.status(), StatusCode::Gone);
    assert_eq!(response.content(), None);
}

#[test]
fn respond_looks_the_sanitized_path_up() {
    let mut router: Router<Handler> = Router::new();
    router.register(Method::GET, "/about".to_string(), FnTask::new(index));
    router.register(Method::GET, "about".to_string(), FnTask::new(about));
    let (_, response) = respond(&router, &item(1, "GET /about?x=1 HTTP/1.1\r\n\r\n"));
    assert_eq!(response.status(), StatusCode::OK);
    assert_eq!(response.content(), Some("About"));
}

#[test]
fn respond_answers_not_found_for_an_unregistered_path() {
    let mut router: Router<Handler> = Router::new();
    router.register(Method::GET, "/".to_string(), FnTask::new(index));
    let (key, response) = respond(&router, &item(3, "GET /missing?a=1 HTTP/1.1\r\n\r\n"));
    assert_eq!(key, 3);
    assert_eq!(response.status(), StatusCode::NotFound);
    assert_eq!(response.content(), None);
    let (_, other) = respond(&router, &item(4, "POST /?a=1 HTTP/1.1\r\n\r\n"));
    assert_eq!(other.status(), StatusCode::NotFound);
}

#[test]
fn respond_answers_a_parse_error_for_an_invalid_start_line() {
    let mut router: Router<Handler> = Router::new();
    router.register(Method::GET, "/".to_string(), FnTask::new(index));
    let (key, response) = respond(&router, &item(8, "GET/?a=1\r\n\r\n"));
    assert_eq!(key, 8);
    assert_eq!(response.status(), StatusCode::BadRequest);
    assert_eq!(response.content(), None);
    assert_eq!(
        response.to_text(),
        "HTTP/1.1 400 Bad Request\r\nContent-Length: 0\r\n\r\n"
    );
}

#[test]
fn respond_answers_a_parse_error_for_bytes_that_are_not_utf8() {
    let mut router: Router<Handler> = Router::new();
    router.register(Method::GET, "/".to_string(), FnTask::new(index));
    let mut bytes = b"GET /?a=1 HTTP/1.1\r\n\r\n".to_vec();
    bytes.push(0xff);
    let (key, response) = respond(&router, &WorkItem { key: 9, bytes });
    assert_eq!(key, 9);
    assert_eq!(response.status(), StatusCode::BadRequest);
}

#[test]
fn respond_decodes_utf8_before_parsing() {
    let mut router: Router<Handler> = Router::new();
    router.register(Method::GET, "é".to_string(), FnTask::new(index));
    let (_, response) = respond(&router, &item(1, "GET /é?a=1 HTTP/1.1\r\n\r\n"));
    assert_eq!(response.status(), StatusCode::OK);
}

#[test]
fn server_new_is_empty() {
    let mut server: Server<u8, Handler> = Server::new(8);
    assert_eq!(server.max_threads(), 8);
    assert!(server.work().is_none());
    assert!(server.deliver(0, &TaskResponse::not_found()).is_none());
    let (queue, table, router) = server.into_parts();
    assert_eq!(queue.len(), 0);
    assert_eq!(table.len(), 0);
    assert!(router.lookup(Method::GET, "/").is_none());
}

#[test]
fn server_end_to_end_index_route() {
    let mut server: Server<&str, Handler> = Server::new(8);
    server.route(Method::GET, "/".to_string(), FnTask::new(index));
    let key = server.accept("socket", b"GET /?a=1 HTTP/1.1\r\nHost: x\r\n\r\n".to_vec());
    let (tag, response) = server.work().unwrap();
    assert_eq!(tag, key);
    assert_eq!(response.status(), StatusCode::OK);
    assert_eq!(response.status().code(), 200);
    assert_eq!(response.content(), Some("Index route"));
    let (conn, text) = server.deliver(tag, &response).unwrap();
    assert_eq!(conn, "socket");
    assert_eq!(text, "HTTP/1.1 200 OK\r\nContent-Length: 11\r\n\r\nIndex route");
    assert!(server.work().is_none());
    assert!(server.deliver(tag, &response).is_none());
}

#[test]
fn server_end_to_end_unregistered_path() {
    let mut server: Server<&str, Handler> = Server::new(2);
    server.route(Method::GET, "/".to_string(), FnTask::new(index));
    let key = server.accept("socket", b"GET /nowhere?a=1 HTTP/1.1\r\nHost: x\r\n\r\n".to_vec());
    let (tag, response) = server.work().unwrap();
    assert_eq!(tag, key);
    assert_eq!(response.status(), StatusCode::NotFound);
    let (conn, text) = server.deliver(tag, &response).unwrap();
    assert_eq!(conn, "socket");
    assert_eq!(text, "HTTP/1.1 404 Not Found\r\nContent-Length: 0\r\n\r\n");
}

#[test]
fn server_end_to_end_invalid_start_line() {
    let mut server: Server<&str, Handler> = Server::new(2);
    server.route(Method::GET, "/".to_string(), FnTask::new(index));
    let key = server.accept("socket", b"nonsense".to_vec());
    let (tag, response) = server.work().unwrap();
    assert_eq!(tag, key);
    assert_eq!(response.status(), StatusCode::BadRequest);
    let (conn, text) = server.deliver(tag, &response).unwrap();
    assert_eq!(conn, "socket");
    assert_eq!(text, "HTTP/1.1 400 Bad Request\r\nContent-Length: 0\r\n\r\n");
}

#[test]
fn server_enqueue_uses_the_given_key() {
    let mut server: Server<&str, Handler> = Server::new(1);
    server.enqueue(7, "first", b"GET /?a=1 HTTP/1.1\r\n\r\n".to_vec());
    server.enqueue(8, "second", b"GET /?a=1 HTTP/1.1\r\n\r\n".to_vec());
    assert_eq!(server.work().unwrap().0, 7);
    assert_eq!(server.work().unwrap().0, 8);
    let r = TaskResponse::not_found();
    assert_eq!(server.deliver(8, &r).unwrap().0, "second");
    assert_eq!(server.deliver(7, &r).unwrap().0, "first");
}

#[test]
fn server_drops_the_response_for_an_unknown_key() {
    let mut server: Server<&str, Handler> = Server::new(1);
    server.enqueue(7, "first", b"x".to_vec());
    let r = TaskResponse::not_found();
    assert!(server.deliver(70, &r).is_none());
    assert_eq!(server.deliver(7, &r).unwrap().0, "first");
    assert!(server.deliver(7, &r).is_none());
}

#[test]
fn server_key_collision_loses_the_older_connection() {
    let mut server: Server<&str, Handler> = Server::new(1);
    server.enqueue(7, "older", b"x".to_vec());
    server.enqueue(7, "newer", b"y".to_vec());
    let answers = server.drain();
    assert_eq!(answers.len(), 2);
    assert_eq!(server.deliver(7, &answers[0].1).unwrap().0, "newer");
    assert!(server.deliver(7, &answers[1].1).is_none());
}

#[test]
fn server_drain_answers_every_item_once_in_order() {
    let mut server: Server<u32, Handler> = Server::new(3);
    server.route(Method::GET, "/".to_string(), FnTask::new(index));
    let total: u32 = 10;
    for k in 0..total {
        let text = if k % 2 == 0 { "GET /?a=1 HTTP/1.1\r\n\r\n" } else { "GET /no?a=1 HTTP/1.1\r\n\r\n" };
        server.enqueue(k, k * 100, text.as_bytes().to_vec());
    }
    let answers = server.drain();
    assert_eq!(answers.len(), total as usize);
    for (i, (key, response)) in answers.iter().enumerate() {
        assert_eq!(*key, i as u32);
        let expected = if i % 2 == 0 { StatusCode::OK } else { StatusCode::NotFound };
        assert_eq!(response.status(), expected);
    }
    assert!(server.work().is_none());
    assert!(server.drain().is_empty());
    for (key, response) in answers.iter() {
        assert_eq!(server.deliver(*key, response).unwrap().0, key * 100);
    }
}

#[test]
fn workers_taking_turns_process_each_item_exactly_once() {
    let workers = 3;
    let total = 11;
    let mut router: Router<Handler> = Router::new();
    router.register(Method::GET, "/".to_string(), FnTask::new(index));
    let mut queue = TaskQueue::new();
    for k in 0..total {
        queue.push(item(k, "GET /?a=1 HTTP/1.1\r\n\r\n"));
    }
    let mut in_hand: Vec<Option<WorkItem>> = (0..workers).map(|_| None).collect();
    let mut processed = vec![0u32; total as usize];
    let mut turn = 0;
    loop {
        let slot = &mut in_hand[turn % workers];
        match slot.take() {
            Some(work) => {
                let (key, response) = respond(&router, &work);
                assert_eq!(response.status(), StatusCode::OK);
                processed[key as usize] += 1;
            }
            None => *slot = queue.pop(),
        }
        turn += 1;
        if queue.len() == 0 && in_hand.iter().all(|s| s.is_none()) {
            break;
        }
    }
    assert_eq!(processed.iter().sum::<u32>(), total);
    assert!(processed.iter().all(|n| *n == 1));
}
