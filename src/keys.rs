use vstd::prelude::*;
use vstd::string::StringExecFns;
use crate::endpoint::EndpointKey;

verus! {

pub open spec fn digit_chars() -> Seq<char> {
    seq!['0', '1', '2', '3', '4', '5', '6', '7', '8', '9']
}

/// Decimal notation of `n`, without leading zeros.
pub open spec fn decimal(n: nat) -> Seq<char>
    decreases n,
{
    if n < 10 {
        seq![digit_chars()[n as int]]
    } else {
        decimal(n / 10).push(digit_chars()[(n % 10) as int])
    }
}

/// `username@host:port`, the text key of an endpoint.
pub open spec fn spec_pool_key(host: Seq<char>, port: u16, username: Seq<char>) -> Seq<char> {
    username + seq!['@'] + host + seq![':'] + decimal(port as nat)
}

/// The parts joined with `:` between each two.
pub open spec fn join_colon(parts: Seq<Seq<char>>) -> Seq<char>
    decreases parts.len(),
{
    if parts.len() == 0 {
        Seq::empty()
    } else if parts.len() == 1 {
        parts[0]
    } else {
        join_colon(parts.drop_last()) + seq![':'] + parts.last()
    }
}

fn digit_str(d: u16) -> (r: &'static str)
    requires
        d < 10,
    ensures
        r@ == seq![digit_chars()[d as int]],
{
    proof {
        reveal_strlit("0");
        reveal_strlit("1");
        reveal_strlit("2");
        reveal_strlit("3");
        reveal_strlit("4");
        reveal_strlit("5");
        reveal_strlit("6");
        reveal_strlit("7");
        reveal_strlit("8");
        reveal_strlit("9");
    }
    let r = match d {
        0 => "0",
        1 => "1",
        2 => "2",
        3 => "3",
        4 => "4",
        5 => "5",
        6 => "6",
        7 => "7",
        8 => "8",
        _ => "9",
    };
    proof {
        assert(r@ =~= seq![digit_chars()[d as int]]);
    }
    r
}

fn push_decimal(s: &mut String, n: u16)
    ensures
        final(s)@ == old(s)@ + decimal(n as nat),
    decreases n,
{
    if n >= 10 {
        push_decimal(s, n / 10);
    }
    s.append(digit_str(n % 10));
    proof {
        assert(final(s)@ =~= old(s)@ + decimal(n as nat));
    }
}

/// The pool key of an endpoint: `username@host:port`.
pub fn generate_pool_key(host: &str, port: u16, username: &str) -> (r: String)
    ensures
        r@ == spec_pool_key(host@, port, username@),
{
    proof {
        reveal_strlit("@");
        reveal_strlit(":");
    }
    let mut s = String::from_str(username);
    s.append("@");
    s.append(host);
    s.append(":");
    push_decimal(&mut s, port);
    proof {
        assert(s@ =~= spec_pool_key(host@, port, username@));
    }
    s
}

impl EndpointKey {
    pub fn pool_key(&self) -> (r: String)
        ensures
            r@ == spec_pool_key(self.host@, self.port, self.username@),
    {
        generate_pool_key(self.host.as_str(), self.port, self.username.as_str())
    }
}

pub open spec fn str_views(parts: Seq<&str>) -> Seq<Seq<char>> {
    parts.map_values(|p: &str| p@)
}

/// A cache key made of its components joined by `:`.
pub fn generate_cache_key(components: &[&str]) -> (r: String)
    ensures
        r@ == join_colon(str_views(components@)),
{
    proof {
        reveal_strlit(":");
    }
    let mut s = String::new();
    let mut i: usize = 0;
    while i < components.len()
        invariant
            i <= components@.len(),
            s@ == join_colon(str_views(components@.subrange(0, i as int))),
        decreases components@.len() - i,
    {
        let ghost before = s@;
        proof {
            reveal_strlit(":");
        }
        if i > 0 {
            s.append(":");
        }
        s.append(components[i]);
        proof {
            let prev = str_views(components@.subrange(0, i as int));
            let next = str_views(components@.subrange(0, i + 1));
            assert(next.drop_last() =~= prev);
            assert(next.last() == components@[i as int]@);
            assert(s@ == before + (if i > 0 { seq![':'] } else { Seq::empty() }) + components@[i as int]@);
            if i == 0 {
                assert(prev.len() == 0);
                assert(before =~= Seq::<char>::empty());
                assert(next.len() == 1);
                assert(join_colon(next) == next[0]);
                assert(s@ =~= join_colon(next));
            } else {
                assert(s@ =~= join_colon(next));
            }
        }
        i = i + 1;
    }
    proof {
        assert(components@.subrange(0, i as int) =~= components@);
    }
    s
}

} // verus!
