//! The price reporter's small HTTP front: the route table and the fixed
//! responses it serves. The listener that accepts connections and the
//! price streams it reads live outside this library; the routing
//! decision and the health answer are decided here.

use vstd::prelude::*;

use crate::cache::bytes_eq;

verus! {

/// A price quoted by the execution venue, as its API returns it
#[derive(Clone, Debug)]
pub struct PriceResponse {
    /// The price, as the decimal string the venue answered
    pub price: String,
}

/// The subset of the execution venue's swap quote forwarded to
/// consumers
#[derive(Clone, Debug)]
pub struct ExecutionQuote {
    /// The quoted price
    pub price: String,
    /// The submitting address
    pub from: String,
    /// The swap contract address
    pub to: String,
    /// The calldata for the swap
    pub data: String,
    /// The value of the transaction; should be zero
    pub value: String,
    /// The gas price used in the swap
    pub gas_price: String,
}

/// A handle to the cached price streams the reporter serves
#[derive(Clone, Debug)]
pub struct GlobalPriceStreams {
    /// The topics with a live stream
    pub topics: Vec<Vec<u8>>,
}

/// The handler for the health check endpoint
#[derive(Clone, Copy, Debug)]
pub struct HealthCheckHandler;

impl HealthCheckHandler {
    /// The health endpoint always answers success
    pub fn handle(&self) -> (r: (u16, String))
        ensures
            r.0 == 200,
            r.1@ == "OK"@,
    {
        (200, "OK".to_owned())
    }
}

/// The bytes of the health check route, `/health`
pub open spec fn health_route() -> Seq<u8> {
    seq![47u8, 104u8, 101u8, 97u8, 108u8, 116u8, 104u8]
}

/// The first route matching a path, if any
pub open spec fn route_lookup(routes: Seq<Vec<u8>>, path: Seq<u8>) -> Option<int> {
    if exists|i: int| 0 <= i < routes.len() && routes[i]@ == path {
        Some(choose|i: int| 0 <= i < routes.len() && routes[i]@ == path)
    } else {
        None
    }
}

/// The HTTP server for the price reporter: its port, its route table,
/// and the price streams it serves from.
#[derive(Clone, Debug)]
pub struct HttpServer {
    /// The port on which the server will listen
    pub port: u16,
    /// The route table: a request is served by the first route equal to
    /// its path
    pub routes: Vec<Vec<u8>>,
    /// A handle to the global map of price streams
    pub price_streams: GlobalPriceStreams,
}

impl HttpServer {
    /// A new HTTP server on the given port, routing the health check
    /// endpoint over the given price streams
    pub fn new(port: u16, price_streams: GlobalPriceStreams) -> (r: HttpServer)
        ensures
            r.port == port,
            r.price_streams == price_streams,
            r.routes@.len() == 1,
            r.routes@[0]@ == health_route(),
    {
        let router = Self::build_router();
        HttpServer { port, routes: router, price_streams }
    }

    /// Build the route table: the health check route alone
    fn build_router() -> (r: Vec<Vec<u8>>)
        ensures
            r@.len() == 1,
            r@[0]@ == health_route(),
    {
        let mut route: Vec<u8> = Vec::new();
        route.push(47);
        route.push(104);
        route.push(101);
        route.push(97);
        route.push(108);
        route.push(116);
        route.push(104);
        proof {
            assert(route@ =~= health_route());
        }
        let mut routes: Vec<Vec<u8>> = Vec::new();
        routes.push(route);
        routes
    }

    /// Match a path against the route table: the index of the serving
    /// route, or nothing when the path is unrouted
    pub fn route_request(&self, path: &Vec<u8>) -> (r: Option<usize>)
        ensures
            r is Some <==> route_lookup(self.routes@, path@) is Some,
            r is Some ==> 0 <= r->0 < self.routes@.len() && self.routes@[r->0 as int]@ == path@,
    {
        let n = self.routes.len();
        let mut i: usize = 0;
        while i < n
            invariant
                n == self.routes@.len(),
                0 <= i <= n,
                forall|j: int| 0 <= j < i ==> self.routes@[j]@ != path@,
            decreases n - i,
        {
            let hit = bytes_eq(&self.routes[i], path);
            if hit {
                return Some(i);
            }
            i = i + 1;
        }
        None
    }

    /// Serve a request: the health route answers success, an unrouted
    /// path answers not-found.
    pub fn serve_request(&self, path: &Vec<u8>) -> (r: (u16, String))
        ensures
            route_lookup(self.routes@, path@) is Some && path@ == health_route() ==> r.0 == 200
                && r.1@ == "OK"@,
            route_lookup(self.routes@, path@) is None ==> r.0 == 404 && r.1@ == "Not Found"@,
    {
        match self.route_request(path) {
            Some(_i) => {
                let is_health = {
                    let mut h: Vec<u8> = Vec::new();
                    h.push(47);
                    h.push(104);
                    h.push(101);
                    h.push(97);
                    h.push(108);
                    h.push(116);
                    h.push(104);
                    proof {
                        assert(h@ =~= health_route());
                    }
                    bytes_eq(path, &h)
                };
                if is_health {
                    let handler = HealthCheckHandler;
                    handler.handle()
                } else {
                    (404, "Not Found".to_owned())
                }
            },
            None => (404, "Not Found".to_owned()),
        }
    }
}

} // verus!
