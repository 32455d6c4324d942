//! The middleware pipeline: `before` hooks in registration order, stopping
//! at the first early response, and `after` hooks in reverse order.
use vstd::prelude::*;
use crate::request::Request;
use crate::response::Response;

verus! {

/// A request/response transformer that applications implement. Each hook
/// does what its model says.
pub trait Middleware {
    /// The request a `before` hook leaves and the early response it gives.
    spec fn before_model(&self, req: Request) -> (Request, Option<Response>);

    /// The response an `after` hook leaves.
    spec fn after_model(&self, req: Request, res: Response) -> Response;

    /// Runs before the handler; a response ends the request early.
    fn before(&self, req: &mut Request) -> (r: Option<Response>)
        ensures
            (*final(req), r) == self.before_model(*old(req)),
    ;

    /// Runs after the handler, on the response.
    fn after(&self, req: &Request, res: &mut Response)
        ensures
            *final(res) == self.after_model(*req, *old(res)),
    ;
}

/// The `before` hooks from `ms[i]` on, in order: each gets the request the
/// previous one left; the first early response stops the run.
pub open spec fn before_fold<M: Middleware>(ms: Seq<M>, i: int, req: Request) -> (Request, Option<Response>)
    decreases ms.len() - i,
{
    if i < 0 || i >= ms.len() {
        (req, None)
    } else {
        let (q, r) = ms[i].before_model(req);
        if r is Some { (q, r) } else { before_fold(ms, i + 1, q) }
    }
}

/// The `after` hooks of `ms[..n]`, from the last to the first, each on the
/// response the previous one left.
pub open spec fn after_fold<M: Middleware>(ms: Seq<M>, n: int, req: Request, res: Response) -> Response
    decreases n,
{
    if n <= 0 || n > ms.len() {
        res
    } else {
        after_fold(ms, n - 1, req, ms[n - 1].after_model(req, res))
    }
}

/// Middleware in registration order.
pub struct MiddlewareChain<M> {
    pub middlewares: Vec<M>,
}

impl<M: Middleware> MiddlewareChain<M> {
    pub fn new() -> (r: MiddlewareChain<M>)
        ensures
            r.middlewares@.len() == 0,
    {
        MiddlewareChain { middlewares: Vec::new() }
    }

    /// Registers a middleware after those already registered.
    pub fn add(&mut self, middleware: M)
        ensures
            final(self).middlewares@ == old(self).middlewares@.push(middleware),
    {
        self.middlewares.push(middleware);
    }

    /// Runs the `before` hooks in registration order and returns the first
    /// early response; the hooks after it do not run.
    pub fn run_before(&self, req: &mut Request) -> (r: Option<Response>)
        ensures
            (*final(req), r) == before_fold(self.middlewares@, 0, *old(req)),
    {
        let mut i: usize = 0;
        while i < self.middlewares.len()
            invariant
                i <= self.middlewares@.len(),
                before_fold(self.middlewares@, 0, *old(req)) == before_fold(self.middlewares@, i as int, *req),
            decreases self.middlewares@.len() - i,
        {
            match self.middlewares[i].before(req) {
                Some(res) => {
                    return Some(res);
                },
                None => {},
            }
            i += 1;
        }
        None
    }

    /// Runs the `after` hooks in reverse registration order.
    pub fn run_after(&self, req: &Request, res: &mut Response)
        ensures
            *final(res) == after_fold(self.middlewares@, self.middlewares@.len() as int, *req, *old(res)),
    {
        let mut i: usize = self.middlewares.len();
        while i > 0
            invariant
                i <= self.middlewares@.len(),
                after_fold(self.middlewares@, self.middlewares@.len() as int, *req, *old(res)) == after_fold(
                    self.middlewares@,
                    i as int,
                    *req,
                    *res,
                ),
            decreases i,
        {
            i -= 1;
            self.middlewares[i].after(req, res);
        }
    }
}

} // verus!
