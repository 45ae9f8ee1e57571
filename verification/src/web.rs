//! The document served to viewers over plain HTTP. The page is static
//! except for one substitution: every occurrence of the port marker
//! `%PORT%` in the template becomes the decimal digits of the port the
//! viewer stream listens on. The transport layer only ships the bytes
//! built here.

use vstd::prelude::*;

verus! {

/// The marker the template carries where the port belongs: the bytes of
/// `%PORT%`.
pub open spec fn port_marker() -> Seq<u8> {
    seq![37u8, 80u8, 79u8, 82u8, 84u8, 37u8]
}

/// The decimal digits of `n`, most significant first, as bytes.
pub open spec fn dec_digits(n: nat) -> Seq<u8>
    decreases n,
{
    if n < 10 {
        seq![(48 + n) as u8]
    } else {
        dec_digits(n / 10).push((48 + n % 10) as u8)
    }
}

/// The template with every occurrence of the marker replaced by `rep`,
/// scanning left to right.
pub open spec fn spec_substituted(t: Seq<u8>, rep: Seq<u8>) -> Seq<u8>
    decreases t.len(),
{
    if t.len() < port_marker().len() {
        t
    } else if t.subrange(0, port_marker().len() as int) == port_marker() {
        rep + spec_substituted(t.skip(port_marker().len() as int), rep)
    } else {
        seq![t.first()] + spec_substituted(t.drop_first(), rep)
    }
}

/// Append the decimal digits of `n` to `out`.
fn push_decimal(out: &mut Vec<u8>, n: u16)
    ensures
        final(out)@ == old(out)@ + dec_digits(n as nat),
    decreases n,
{
    if n < 10 {
        out.push(48 + n as u8);
        proof {
            assert(out@ =~= old(out)@ + dec_digits(n as nat));
        }
    } else {
        push_decimal(out, n / 10);
        out.push(48 + (n % 10) as u8);
        proof {
            assert(out@ =~= old(out)@ + dec_digits(n as nat));
        }
    }
}

/// Whether the marker sits in `template` at position `i`.
fn marker_at(template: &[u8], i: usize) -> (b: bool)
    requires
        i + port_marker().len() <= template@.len(),
    ensures
        b == (template@.subrange(i as int, i as int + port_marker().len() as int)
            == port_marker()),
{
    let b = template[i] == 37 && template[i + 1] == 80 && template[i + 2] == 79 && template[i
        + 3] == 82 && template[i + 4] == 84 && template[i + 5] == 37;
    proof {
        let sub = template@.subrange(i as int, i as int + 6);
        assert(sub.len() == 6);
        if b {
            assert(sub =~= port_marker());
        } else {
            if sub == port_marker() {
                assert(sub[0] == 37u8 && sub[1] == 80u8 && sub[2] == 79u8 && sub[3] == 82u8
                    && sub[4] == 84u8 && sub[5] == 37u8);
                assert(false);
            }
        }
    }
    b
}

/// Build the document the web listener serves: the page template with
/// every port marker replaced by the decimal digits of the viewer-stream
/// port.
pub fn init_web_server(template: &[u8], port: u16) -> (page: Vec<u8>)
    ensures
        page@ == spec_substituted(template@, dec_digits(port as nat)),
{
    let ghost rep = dec_digits(port as nat);
    let mut page: Vec<u8> = Vec::new();
    let n = template.len();
    let mut i: usize = 0;
    proof {
        assert(template@.skip(0) =~= template@);
        assert(page@ + spec_substituted(template@.skip(0), rep) =~= spec_substituted(
            template@,
            rep,
        ));
    }
    while i < n
        invariant
            n == template@.len(),
            i <= n,
            rep == dec_digits(port as nat),
            page@ + spec_substituted(template@.skip(i as int), rep) == spec_substituted(
                template@,
                rep,
            ),
        decreases n - i,
    {
        let ghost pre = page@;
        let ghost t = template@.skip(i as int);
        proof {
            assert(t.len() == n - i);
        }
        if n - i >= 6 && marker_at(template, i) {
            push_decimal(&mut page, port);
            proof {
                assert(t.subrange(0, 6) =~= template@.subrange(i as int, i as int + 6));
                assert(spec_substituted(t, rep) == rep + spec_substituted(t.skip(6), rep));
                assert(t.skip(6) =~= template@.skip(i as int + 6));
                assert(page@ + spec_substituted(template@.skip(i as int + 6), rep) =~= (pre
                    + spec_substituted(t, rep)));
            }
            i = i + 6;
        } else {
            let b = template[i];
            page.push(b);
            proof {
                if n - i >= 6 {
                    assert(t.subrange(0, 6) =~= template@.subrange(i as int, i as int + 6));
                    assert(spec_substituted(t, rep) == seq![t.first()] + spec_substituted(
                        t.drop_first(),
                        rep,
                    ));
                } else {
                    assert(spec_substituted(t, rep) == t);
                    assert(spec_substituted(t.drop_first(), rep) == t.drop_first());
                    assert(t =~= seq![t.first()] + t.drop_first());
                }
                assert(t.first() == template@[i as int]);
                assert(t.drop_first() =~= template@.skip(i as int + 1));
                assert(page@ + spec_substituted(template@.skip(i as int + 1), rep) =~= (pre
                    + spec_substituted(t, rep)));
            }
            i = i + 1;
        }
    }
    proof {
        assert(template@.skip(n as int) =~= Seq::<u8>::empty());
        assert(spec_substituted(Seq::<u8>::empty(), rep) == Seq::<u8>::empty());
        assert(page@ =~= page@ + spec_substituted(template@.skip(n as int), rep));
    }
    page
}

} // verus!
