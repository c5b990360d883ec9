use vstd::prelude::*;

verus! {

/// The options of a namespace listing: a name prefix, the cursor of the
/// page to fetch, and the page size.
#[derive(Clone, Debug, PartialEq)]
pub struct NamespacesParams {
    pub prefix: Option<String>,
    pub cursor: Option<String>,
    pub page_size: Option<u32>,
}

impl Default for NamespacesParams {
    fn default() -> (r: NamespacesParams)
        ensures
            r.prefix is None,
            r.cursor is None,
            r.page_size is None,
    {
        NamespacesParams { prefix: None, cursor: None, page_size: None }
    }
}

/// The decimal digit `d`, as text.
pub open spec fn digit_text(d: nat) -> Seq<char> {
    if d == 0 {
        "0"@
    } else if d == 1 {
        "1"@
    } else if d == 2 {
        "2"@
    } else if d == 3 {
        "3"@
    } else if d == 4 {
        "4"@
    } else if d == 5 {
        "5"@
    } else if d == 6 {
        "6"@
    } else if d == 7 {
        "7"@
    } else if d == 8 {
        "8"@
    } else {
        "9"@
    }
}

/// `n` written in decimal, with no leading zero.
pub open spec fn decimal(n: nat) -> Seq<char>
    decreases n,
{
    if n < 10 {
        digit_text(n)
    } else {
        decimal(n / 10) + digit_text(n % 10)
    }
}

/// The `key=value` parameters of a listing, in the order prefix, cursor,
/// page size, each present only when it is set.
pub open spec fn listing_params(p: NamespacesParams) -> Seq<Seq<char>> {
    (match p.prefix {
        Some(s) => seq!["prefix="@ + s@],
        None => Seq::empty(),
    }) + (match p.cursor {
        Some(s) => seq!["cursor="@ + s@],
        None => Seq::empty(),
    }) + (match p.page_size {
        Some(n) => seq!["page_size="@ + decimal(n as nat)],
        None => Seq::empty(),
    })
}

/// A query string: `?` before the first parameter, `&` between the others;
/// empty when there are none.
pub open spec fn query_string(params: Seq<Seq<char>>) -> Seq<char>
    decreases params.len(),
{
    if params.len() == 0 {
        Seq::empty()
    } else if params.len() == 1 {
        "?"@ + params[0]
    } else {
        query_string(params.drop_last()) + "&"@ + params.last()
    }
}

/// The request path of a namespace listing.
pub open spec fn listing_path(p: NamespacesParams) -> Seq<char> {
    "/v1/namespaces"@ + query_string(listing_params(p))
}

fn digit(d: u32) -> (r: &'static str)
    requires
        d < 10,
    ensures
        r@ == digit_text(d as nat),
{
    if d == 0 {
        "0"
    } else if d == 1 {
        "1"
    } else if d == 2 {
        "2"
    } else if d == 3 {
        "3"
    } else if d == 4 {
        "4"
    } else if d == 5 {
        "5"
    } else if d == 6 {
        "6"
    } else if d == 7 {
        "7"
    } else if d == 8 {
        "8"
    } else {
        "9"
    }
}

fn append_decimal(s: &mut String, n: u32)
    ensures
        final(s)@ == old(s)@ + decimal(n as nat),
    decreases n,
{
    if n >= 10 {
        append_decimal(s, n / 10);
    }
    s.append(digit(n % 10));
    assert(final(s)@ =~= old(s)@ + decimal(n as nat));
}

proof fn lemma_query_string_push(params: Seq<Seq<char>>, x: Seq<char>)
    ensures
        query_string(params.push(x)) == query_string(params) + (if params.len() == 0 {
            "?"@
        } else {
            "&"@
        }) + x,
{
    let q = params.push(x);
    if params.len() == 0 {
        assert(q[0] == x);
        assert(query_string(params) =~= Seq::<char>::empty());
        assert(query_string(q) =~= query_string(params) + "?"@ + x);
    } else {
        assert(q.drop_last() =~= params);
    }
}

fn append_param(path: &mut String, first: bool, key: &str, value: &str)
    ensures
        final(path)@ == old(path)@ + (if first {
            "?"@
        } else {
            "&"@
        }) + key@ + value@,
{
    if first {
        path.append("?");
    } else {
        path.append("&");
    }
    path.append(key);
    path.append(value);
    assert(final(path)@ =~= old(path)@ + (if first {
        "?"@
    } else {
        "&"@
    }) + key@ + value@);
}

impl NamespacesParams {
    /// The request path that lists namespaces with these options.
    pub fn path(&self) -> (r: String)
        ensures
            r@ == listing_path(*self),
    {
        let mut path = "/v1/namespaces".to_owned();
        let ghost base = path@;
        let ghost mut done: Seq<Seq<char>> = Seq::empty();
        let mut first = true;
        if let Some(prefix) = &self.prefix {
            proof {
                lemma_query_string_push(done, "prefix="@ + prefix@);
            }
            append_param(&mut path, first, "prefix=", prefix.as_str());
            proof {
                done = done.push("prefix="@ + prefix@);
            }
            first = false;
            assert(path@ =~= base + query_string(done));
        }
        assert(path@ =~= base + query_string(done));
        assert(first == (done.len() == 0));
        if let Some(cursor) = &self.cursor {
            proof {
                lemma_query_string_push(done, "cursor="@ + cursor@);
            }
            append_param(&mut path, first, "cursor=", cursor.as_str());
            proof {
                done = done.push("cursor="@ + cursor@);
            }
            first = false;
            assert(path@ =~= base + query_string(done));
        }
        assert(first == (done.len() == 0));
        if let Some(n) = self.page_size {
            let mut digits = String::new();
            append_decimal(&mut digits, n);
            assert(digits@ =~= decimal(n as nat));
            proof {
                lemma_query_string_push(done, "page_size="@ + digits@);
            }
            append_param(&mut path, first, "page_size=", digits.as_str());
            proof {
                done = done.push("page_size="@ + digits@);
            }
            assert(path@ =~= base + query_string(done));
        }
        assert(done =~= listing_params(*self));
        path
    }
}

} // verus!
