use vstd::prelude::*;

verus! {

/// Query parameters as `(name, value)` pairs.
pub type HttpParams = Vec<(String, String)>;

/// `name=value` pairs joined by `&`, in order.
pub open spec fn http_string(params: Seq<(Seq<char>, Seq<char>)>) -> Seq<char>
    decreases params.len(),
{
    if params.len() == 0 {
        Seq::empty()
    } else {
        let prev = http_string(params.drop_last());
        let pair = params.last().0 + seq!['='] + params.last().1;
        if params.len() == 1 {
            pair
        } else {
            prev + seq!['&'] + pair
        }
    }
}

pub open spec fn params_view(params: Seq<(String, String)>) -> Seq<(Seq<char>, Seq<char>)> {
    params.map_values(|p: (String, String)| (p.0@, p.1@))
}

proof fn lemma_http_string_nonempty(params: Seq<(Seq<char>, Seq<char>)>)
    requires
        params.len() > 0,
    ensures
        http_string(params).len() > 0,
    decreases params.len(),
{
    if params.len() > 1 {
        lemma_http_string_nonempty(params.drop_last());
    }
}

/// Encodes parameters as a query string: `name=value` pairs joined by `&`.
pub fn to_http_string(parameters: &HttpParams) -> (r: String)
    ensures
        r@ == http_string(params_view(parameters@)),
{
    let ghost ps = params_view(parameters@);
    let mut http_string_out = String::new();
    let mut i: usize = 0;
    proof {
        reveal_strlit("&");
        reveal_strlit("=");
    }
    while i < parameters.len()
        invariant
            i <= parameters@.len(),
            ps == params_view(parameters@),
            http_string_out@ == http_string(ps.take(i as int)),
            "&"@ == seq!['&'],
            "="@ == seq!['='],
        decreases parameters@.len() - i,
    {
        proof {
            assert(ps.take(i + 1).drop_last() =~= ps.take(i as int));
            if i > 0 {
                lemma_http_string_nonempty(ps.take(i as int));
            }
        }
        if !http_string_out.as_str().is_empty() {
            http_string_out.append("&");
        }
        let (key, value) = (&parameters[i].0, &parameters[i].1);
        http_string_out.append(key.as_str());
        http_string_out.append("=");
        http_string_out.append(value.as_str());
        proof {
            assert(http_string_out@ =~= http_string(ps.take(i + 1)));
        }
        i = i + 1;
    }
    proof {
        assert(ps.take(parameters@.len() as int) =~= ps);
    }
    http_string_out
}

} // verus!
