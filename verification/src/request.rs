use vstd::prelude::*;

verus! {

/// The bytes before the host name in the fixed request:
/// `"GET / HTTP/1.1\r\nHost: "`.
pub open spec fn request_prefix() -> Seq<u8> {
    seq![
        71u8, 69, 84, 32, 47, 32, 72, 84, 84, 80, 47, 49, 46, 49, 13, 10, 72, 111, 115, 116, 58,
        32,
    ]
}

/// The bytes after the host name in the fixed request:
/// `"\r\nConnection: close\r\n\r\n"`.
pub open spec fn request_suffix() -> Seq<u8> {
    seq![
        13u8, 10, 67, 111, 110, 110, 101, 99, 116, 105, 111, 110, 58, 32, 99, 108, 111, 115, 101,
        13, 10, 13, 10,
    ]
}

/// The fixed request sent over the winning connection: a GET for the root
/// resource, a Host header naming the original target, and the terminating
/// blank line.
pub open spec fn request_for(host: Seq<u8>) -> Seq<u8> {
    request_prefix() + host + request_suffix()
}

/// Builds the fixed request for a host, byte for byte: the GET line, the
/// Host header carrying `host` unchanged, and the terminating blank line.
pub fn build_request(host: &Vec<u8>) -> (r: Vec<u8>)
    ensures
        r@ == request_for(host@),
{
    let mut r: Vec<u8> = Vec::new();
    r.push(71);
    r.push(69);
    r.push(84);
    r.push(32);
    r.push(47);
    r.push(32);
    r.push(72);
    r.push(84);
    r.push(84);
    r.push(80);
    r.push(47);
    r.push(49);
    r.push(46);
    r.push(49);
    r.push(13);
    r.push(10);
    r.push(72);
    r.push(111);
    r.push(115);
    r.push(116);
    r.push(58);
    r.push(32);
    proof {
        assert(r@ =~= request_prefix());
    }
    let mut i: usize = 0;
    while i < host.len()
        invariant
            i <= host@.len(),
            r@ == request_prefix() + host@.take(i as int),
        decreases host@.len() - i,
    {
        r.push(host[i]);
        proof {
            assert(host@.take(i + 1) =~= host@.take(i as int).push(host@[i as int]));
            assert(r@ =~= request_prefix() + host@.take(i + 1));
        }
        i = i + 1;
    }
    proof {
        assert(host@.take(host@.len() as int) =~= host@);
    }
    r.push(13);
    r.push(10);
    r.push(67);
    r.push(111);
    r.push(110);
    r.push(110);
    r.push(101);
    r.push(99);
    r.push(116);
    r.push(105);
    r.push(111);
    r.push(110);
    r.push(58);
    r.push(32);
    r.push(99);
    r.push(108);
    r.push(111);
    r.push(115);
    r.push(101);
    r.push(13);
    r.push(10);
    r.push(13);
    r.push(10);
    proof {
        assert(r@ =~= request_for(host@));
    }
    r
}

} // verus!
