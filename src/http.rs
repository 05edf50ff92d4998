use vstd::prelude::*;

verus! {

/// The status a response is sent with.
#[derive(PartialEq, Eq, Structural, Clone, Copy, Debug)]
pub enum Status {
    Okay,
    NotFound,
}

/// The page a response carries.
#[derive(PartialEq, Eq, Structural, Clone, Copy, Debug)]
pub enum Page {
    Hello,
    Missing,
}

/// What a connection is answered with, and whether the answer is held back
/// for a while first.
#[derive(PartialEq, Eq, Structural, Clone, Copy, Debug)]
pub struct Route {
    pub status: Status,
    pub page: Page,
    pub slow: bool,
}

/// The request line `GET / HTTP/1.1`, with its line end.
pub open spec fn index_line() -> Seq<u8> {
    seq![71u8, 69, 84, 32, 47, 32, 72, 84, 84, 80, 47, 49, 46, 49, 13, 10]
}

/// The request line `GET /sleep HTTP/1.1`, with its line end.
pub open spec fn sleep_line() -> Seq<u8> {
    seq![71u8, 69, 84, 32, 47, 115, 108, 101, 101, 112, 32, 72, 84, 84, 80, 47, 49, 46, 49, 13, 10]
}

pub open spec fn has_prefix(s: Seq<u8>, p: Seq<u8>) -> bool {
    p.len() <= s.len() && s.subrange(0, p.len() as int) == p
}

/// Whether `buf` begins with `prefix`.
pub fn starts_with(buf: &[u8], prefix: &[u8]) -> (r: bool)
    ensures
        r == has_prefix(buf@, prefix@),
{
    if prefix.len() > buf.len() {
        return false;
    }
    let mut i: usize = 0;
    while i < prefix.len()
        invariant
            prefix@.len() <= buf@.len(),
            i <= prefix@.len(),
            buf@.subrange(0, i as int) == prefix@.subrange(0, i as int),
        decreases prefix.len() - i,
    {
        if buf[i] != prefix[i] {
            assert(buf@.subrange(0, prefix@.len() as int)[i as int] != prefix@[i as int]);
            return false;
        }
        assert(buf@.subrange(0, i + 1) =~= buf@.subrange(0, i as int).push(buf@[i as int]));
        assert(prefix@.subrange(0, i + 1) =~= prefix@.subrange(0, i as int).push(prefix@[i as int]));
        i = i + 1;
    }
    assert(prefix@.subrange(0, prefix@.len() as int) =~= prefix@);
    true
}

/// How a connection whose first bytes are `request` is answered: the index
/// request gets the hello page, the sleep request gets it late and marked
/// not found, and anything else gets the missing page.
pub fn route(request: &[u8]) -> (r: Route)
    ensures
        r == (if has_prefix(request@, index_line()) {
            Route { status: Status::Okay, page: Page::Hello, slow: false }
        } else if has_prefix(request@, sleep_line()) {
            Route { status: Status::NotFound, page: Page::Hello, slow: true }
        } else {
            Route { status: Status::Okay, page: Page::Missing, slow: false }
        }),
{
    let index: [u8; 16] = [71, 69, 84, 32, 47, 32, 72, 84, 84, 80, 47, 49, 46, 49, 13, 10];
    let sleep: [u8; 21] = [71, 69, 84, 32, 47, 115, 108, 101, 101, 112, 32, 72, 84, 84, 80, 47, 49, 46, 49, 13, 10];
    assert(index@ =~= index_line());
    assert(sleep@ =~= sleep_line());
    if starts_with(request, index.as_slice()) {
        Route { status: Status::Okay, page: Page::Hello, slow: false }
    } else if starts_with(request, sleep.as_slice()) {
        Route { status: Status::NotFound, page: Page::Hello, slow: true }
    } else {
        Route { status: Status::Okay, page: Page::Missing, slow: false }
    }
}

/// The status line, with the blank line that ends the head of a response.
pub fn status_line(status: Status) -> (r: &'static str)
    ensures
        status == Status::Okay ==> r@ == "HTTP/1.1 200 OK\r\n\r\n"@,
        status == Status::NotFound ==> r@ == "HTTP/1.1 404 NOT FOUND\r\n\r\n"@,
{
    match status {
        Status::Okay => "HTTP/1.1 200 OK\r\n\r\n",
        Status::NotFound => "HTTP/1.1 404 NOT FOUND\r\n\r\n",
    }
}

} // verus!
