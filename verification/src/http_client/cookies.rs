//! Cookies the server sets, kept to be sent back on later requests.
use vstd::prelude::*;

use crate::http_client::headers::header_text;
use crate::text::{is_header_text, split_once, split_once_spec};

verus! {

/// The cookie a `Set-Cookie` line sets: the text before its first `;`, if
/// the line is header text and has one.
pub open spec fn cookie_of(line: Seq<u8>) -> Option<Seq<u8>> {
    if header_text(line) {
        match split_once_spec(line, 59u8) {
            Some((cookie, _meta)) => Some(cookie),
            None => None,
        }
    } else {
        None
    }
}

/// The cookies that `lines` set, in order.
pub open spec fn cookies_of(lines: Seq<Seq<u8>>) -> Seq<Seq<u8>>
    decreases lines.len(),
{
    if lines.len() == 0 {
        Seq::empty()
    } else {
        match cookie_of(lines.last()) {
            Some(c) => cookies_of(lines.drop_last()).push(c),
            None => cookies_of(lines.drop_last()),
        }
    }
}

#[derive(Debug, Clone)]
pub struct Cookies(Vec<Vec<u8>>);

impl View for Cookies {
    type V = Seq<Seq<u8>>;

    closed spec fn view(&self) -> Seq<Seq<u8>> {
        self.0@.map_values(|c: Vec<u8>| c@)
    }
}

impl Cookies {
    pub fn new() -> (c: Self)
        ensures
            c@ == Seq::<Seq<u8>>::empty(),
    {
        let c = Self(Vec::new());
        assert(c@ =~= Seq::<Seq<u8>>::empty());
        c
    }

    /// Keeps the cookies that the `Set-Cookie` lines of a response set.
    pub fn get_from(&mut self, set_cookie_lines: &Vec<Vec<u8>>)
        ensures
            final(self)@ == old(self)@ + cookies_of(set_cookie_lines@.map_values(|l: Vec<u8>| l@)),
    {
        let ghost lines = set_cookie_lines@.map_values(|l: Vec<u8>| l@);
        let ghost start = self@;
        let mut i: usize = 0;
        assert(lines.take(0) =~= Seq::<Seq<u8>>::empty());
        assert(start + Seq::<Seq<u8>>::empty() =~= start);
        while i < set_cookie_lines.len()
            invariant
                i <= set_cookie_lines@.len(),
                lines == set_cookie_lines@.map_values(|l: Vec<u8>| l@),
                self@ == start + cookies_of(lines.take(i as int)),
            decreases set_cookie_lines.len() - i,
        {
            let line = set_cookie_lines[i].as_slice();
            assert(lines.take(i + 1).drop_last() =~= lines.take(i as int));
            assert(lines.take(i + 1).last() == line@);
            if is_header_text(line) {
                if let Some((cookie, _meta)) = split_once(line, 59u8) {
                    let owned = vstd::slice::slice_to_vec(cookie);
                    let ghost prev = self@;
                    assert(cookie_of(line@) == Some(cookie@));
                    self.0.push(owned);
                    assert(self@ =~= prev.push(cookie@));
                    assert(self@ =~= start + cookies_of(lines.take(i + 1)));
                } else {
                    assert(self@ =~= start + cookies_of(lines.take(i + 1)));
                }
            } else {
                assert(self@ =~= start + cookies_of(lines.take(i + 1)));
            }
            i += 1;
        }
        assert(lines.take(i as int) =~= lines);
    }

    /// The cookies, oldest first.
    pub fn list(&self) -> (l: &Vec<Vec<u8>>)
        ensures
            l@.map_values(|c: Vec<u8>| c@) == self@,
    {
        &self.0
    }
}

} // verus!
