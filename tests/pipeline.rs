use gust::middleware::{Middleware, MiddlewareChain};
use gust::request::Request;
use gust::response::Response;
use gust::status::StatusCode;
use gust::Method;
use std::cell::RefCell;
use std::rc::Rc;

struct Recorder {
    name: &'static str,
    stop: bool,
    log: Rc<RefCell<Vec<String>>>,
}

impl Middleware for Recorder {
    fn before_model(&self, req: Request) -> (Request, Option<Response>) {
        if self.stop {
            (req, Some(Response::new(StatusCode(429))))
        } else {
            (req, None)
        }
    }

    fn after_model(&self, _req: Request, res: Response) -> Response {
        let mut res = res;
        res.headers.push(("x-seen".to_string(), self.name.to_string()));
        res
    }

    fn before(&self, _req: &mut Request) -> Option<Response> {
        self.log.borrow_mut().push(format!("before {}", self.name));
        if self.stop {
            Some(Response::new(StatusCode(429)))
        } else {
            None
        }
    }

    fn after(&self, _req: &Request, res: &mut Response) {
        self.log.borrow_mut().push(format!("after {}", self.name));
        res.headers.push(("x-seen".to_string(), self.name.to_string()));
    }
}

#[test]
fn pipeline_order() {
    let log = Rc::new(RefCell::new(Vec::new()));
    let mut chain = MiddlewareChain::new();
    chain.add(Recorder { name: "a", stop: false, log: log.clone() });
    chain.add(Recorder { name: "b", stop: false, log: log.clone() });
    let mut req = Request::new(Method::Get, "/");
    assert!(chain.run_before(&mut req).is_none());
    let mut res = Response::ok();
    chain.run_after(&req, &mut res);
    assert_eq!(*log.borrow(), vec!["before a", "before b", "after b", "after a"]);
    assert_eq!(res.headers[0].1, "b");
}

#[test]
fn pipeline_short_circuit() {
    let log = Rc::new(RefCell::new(Vec::new()));
    let mut chain = MiddlewareChain::new();
    chain.add(Recorder { name: "a", stop: true, log: log.clone() });
    chain.add(Recorder { name: "b", stop: false, log: log.clone() });
    let mut req = Request::new(Method::Get, "/");
    let early = chain.run_before(&mut req).unwrap();
    assert_eq!(early.status, StatusCode(429));
    assert_eq!(*log.borrow(), vec!["before a"]);
}
