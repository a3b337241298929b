//! Paging through query results: a page token asks for one row more than
//! the page holds, to learn whether a next page exists without counting.
use vstd::prelude::*;
use vstd::string::StringExecFns;

verus! {

/// The decimal digit for `d < 10`.
pub open spec fn digit_char(d: nat) -> char {
    if d == 0 {
        '0'
    } else if d == 1 {
        '1'
    } else if d == 2 {
        '2'
    } else if d == 3 {
        '3'
    } else if d == 4 {
        '4'
    } else if d == 5 {
        '5'
    } else if d == 6 {
        '6'
    } else if d == 7 {
        '7'
    } else if d == 8 {
        '8'
    } else {
        '9'
    }
}

/// `n` written in decimal, without leading zeros.
pub open spec fn decimal(n: nat) -> Seq<char>
    decreases n,
{
    if n < 10 {
        seq![digit_char(n)]
    } else {
        decimal(n / 10) + seq![digit_char(n % 10)]
    }
}

fn digit_str(d: u64) -> (r: &'static str)
    requires
        d < 10,
    ensures
        r@ == seq![digit_char(d as nat)],
{
    if d == 0 {
        proof { reveal_strlit("0"); }
        "0"
    } else if d == 1 {
        proof { reveal_strlit("1"); }
        "1"
    } else if d == 2 {
        proof { reveal_strlit("2"); }
        "2"
    } else if d == 3 {
        proof { reveal_strlit("3"); }
        "3"
    } else if d == 4 {
        proof { reveal_strlit("4"); }
        "4"
    } else if d == 5 {
        proof { reveal_strlit("5"); }
        "5"
    } else if d == 6 {
        proof { reveal_strlit("6"); }
        "6"
    } else if d == 7 {
        proof { reveal_strlit("7"); }
        "7"
    } else if d == 8 {
        proof { reveal_strlit("8"); }
        "8"
    } else {
        proof { reveal_strlit("9"); }
        "9"
    }
}

/// `n` in decimal, as `n.to_string()` writes it.
pub fn decimal_string(n: u64) -> (r: String)
    ensures
        r@ == decimal(n as nat),
    decreases n,
{
    if n < 10 {
        String::from_str(digit_str(n))
    } else {
        let mut s = decimal_string(n / 10);
        s.append(digit_str(n % 10));
        s
    }
}

/// A request for one page of results: at most `limit` rows, after skipping
/// `offset`.
pub struct PageToken {
    pub limit: u32,
    pub offset: u32,
}

impl Default for PageToken {
    /// The first page of twenty rows.
    fn default() -> (r: Self)
        ensures
            r.limit == 20,
            r.offset == 0,
    {
        PageToken { limit: 20, offset: 0 }
    }
}

impl PageToken {
    /// The SQL clause that fetches this page with one extra row:
    /// `LIMIT <limit + 1> OFFSET <offset>`.
    pub fn as_limit_sql(&self) -> (r: String)
        ensures
            r@ == "LIMIT "@ + decimal((self.limit + 1) as nat) + " OFFSET "@ + decimal(self.offset as nat),
    {
        let mut s = String::from_str("LIMIT ");
        s.append(decimal_string(self.limit as u64 + 1).as_str());
        s.append(" OFFSET ");
        s.append(decimal_string(self.offset as u64).as_str());
        s
    }

    /// Given the rows fetched for this page, drops the extra row if it came
    /// and returns the token of the next page; `None` when this was the last
    /// page.
    pub fn next_page<T>(&self, data: &mut Vec<T>) -> (r: Option<PageToken>)
        requires
            old(data)@.len() > self.limit ==> self.offset + self.limit <= u32::MAX,
        ensures
            old(data)@.len() > self.limit ==> {
                &&& final(data)@ == old(data)@.drop_last()
                &&& r matches Some(p) && p.limit == self.limit && p.offset == self.offset + self.limit
            },
            old(data)@.len() <= self.limit ==> final(data)@ == old(data)@ && r is None,
    {
        if data.len() > self.limit as usize {
            data.pop();
            Some(PageToken { limit: self.limit, offset: self.offset + self.limit })
        } else {
            None
        }
    }
}

/// Paging through query results.
pub trait Paginator: Sized {
    /// The SQL clause that fetches the page with one extra row.
    fn as_limit_sql(&self) -> String;

    /// Drops the extra row, if it came, and returns the next page's token.
    fn next_page<T>(&self, data: &mut Vec<T>) -> Option<Self>;
}

impl Paginator for PageToken {
    fn as_limit_sql(&self) -> String {
        PageToken::as_limit_sql(self)
    }

    /// Past the last offset a token can hold, the extra row is still dropped
    /// but no further page can be asked for.
    fn next_page<T>(&self, data: &mut Vec<T>) -> Option<Self> {
        if data.len() > self.limit as usize && self.limit > u32::MAX - self.offset {
            data.pop();
            return None;
        }
        PageToken::next_page(self, data)
    }
}

} // verus!
