//! Per-connection engine of the XMPP man-in-the-middle: the client→server
//! pump's buffering, framing, caching and rewriting decisions, and the
//! stanzas injected when the stealth mode flips. The TLS sockets and the
//! listener loop around this engine live outside the library; they feed
//! decoded text in and write the returned stanzas out.

use vstd::prelude::*;

use crate::presence::filter_outgoing;
use crate::presence::filter_spec;
use crate::presence::presence_open;
use crate::presence::type_unavailable_attr;
use crate::stanza::find_stanza_end;
use crate::stanza::stanza_end_spec;
use crate::state::StealthMode;
use crate::text::contains_seq;
use crate::text::contains_sub;
use crate::text::has_prefix;
use crate::text::match_at;
use crate::text::ws_count;
use crate::text::ws_prefix_len;

verus! {

/// Configuration of one proxy run: where to listen, which upstream port to
/// dial, and the PEM material of the forged server identity.
pub struct ProxyConfig {
    pub listen_addr: String,
    pub remote_port: u16,
    pub server_cert_pem: String,
    pub server_key_pem: String,
    pub ca_cert_pem: String,
}

/// The literal `type="unavailable"`, whose presence in a raw stanza keeps it
/// out of the cache.
pub open spec fn unavailable_lit() -> Seq<char> {
    seq!['t', 'y', 'p', 'e', '=', '"', 'u', 'n', 'a', 'v', 'a', 'i', 'l', 'a', 'b', 'l', 'e', '"']
}

/// A raw stanza worth caching as the last online presence: a presence
/// stanza that does not already declare itself unavailable.
pub open spec fn cacheable_spec(st: Seq<char>) -> bool {
    &&& match_at(st.skip(ws_prefix_len(st)), presence_open(), 0)
    &&& !contains_seq(st, unavailable_lit())
}

/// The stanza injected on a switch to `Offline`.
pub open spec fn offline_inject() -> Seq<char> {
    presence_open() + type_unavailable_attr() + seq!['/', '>']
}

/// The minimal presence injected on a switch to `Online` with nothing cached.
pub open spec fn minimal_presence() -> Seq<char> {
    presence_open() + seq!['/', '>']
}

/// The stanza injected on a mode switch, given the cached presence.
pub open spec fn inject_spec(mode: StealthMode, last: Seq<char>) -> Seq<char> {
    if mode == StealthMode::Offline {
        offline_inject()
    } else if last.len() > 0 {
        last
    } else {
        minimal_presence()
    }
}

/// What one round of draining the buffer produces: the filtered stanzas to
/// forward in order, the text left in the buffer, and the updated cache.
pub open spec fn drain_spec(buf: Seq<char>, mode: StealthMode, last: Seq<char>) -> (
    Seq<Seq<char>>,
    Seq<char>,
    Seq<char>,
)
    decreases buf.len(),
{
    match stanza_end_spec(buf) {
        Some(n) => {
            if 0 < n <= buf.len() {
                let st = buf.take(n);
                let rest = buf.skip(n);
                let last2 = if cacheable_spec(st) {
                    st
                } else {
                    last
                };
                let r = drain_spec(rest, mode, last2);
                (seq![filter_spec(st, mode)] + r.0, r.1, r.2)
            } else {
                (Seq::<Seq<char>>::empty(), buf, last)
            }
        },
        None => (Seq::<Seq<char>>::empty(), buf, last),
    }
}

/// Whether a raw stanza should replace the cached online presence.
pub fn is_cacheable(stanza: &str) -> (r: bool)
    ensures
        r == cacheable_spec(stanza@),
{
    proof {
        reveal_strlit("<presence");
        reveal_strlit("type=\"unavailable\"");
        assert("<presence"@ =~= presence_open());
        assert("type=\"unavailable\""@ =~= unavailable_lit());
    }
    let n: usize = stanza.unicode_len();
    let w: usize = ws_count(stanza);
    proof {
        crate::text::lemma_ws_prefix_len(stanza@);
    }
    let t: &str = stanza.substring_char(w, n);
    proof {
        assert(t@ =~= stanza@.skip(w as int));
    }
    has_prefix(t, "<presence") && !contains_sub(stanza, "type=\"unavailable\"")
}

/// Per-connection mutable state of the client→server pump: the text not yet
/// framed into a stanza, and the last presence the client sent while it was
/// not declaring itself unavailable.
pub struct Session {
    pub buf: String,
    pub last_presence: String,
}

impl Session {
    /// The cache only ever holds a stanza whose raw form was worth caching.
    pub open spec fn inv(&self) -> bool {
        self.last_presence@.len() == 0 || cacheable_spec(self.last_presence@)
    }

    /// A fresh session: nothing buffered, nothing cached.
    pub fn new() -> (s: Session)
        ensures
            s.buf@.len() == 0,
            s.last_presence@.len() == 0,
            s.inv(),
    {
        Session { buf: String::new(), last_presence: String::new() }
    }

    /// Feed decoded text from the client into the session. Every complete
    /// stanza now in the buffer is framed, cached when it is an available
    /// presence, filtered under `mode`, and returned in arrival order; the
    /// trailing incomplete text stays buffered.
    pub fn push_text(&mut self, text: &str, mode: &StealthMode) -> (out: Vec<String>)
        requires
            old(self).inv(),
        ensures
            ({
                let d = drain_spec(old(self).buf@ + text@, *mode, old(self).last_presence@);
                &&& out@.len() == d.0.len()
                &&& forall|i: int| 0 <= i < out@.len() ==> out@[i]@ == d.0[i]
                &&& final(self).buf@ == d.1
                &&& final(self).last_presence@ == d.2
            }),
            final(self).inv(),
    {
        let ghost full = old(self).buf@ + text@;
        let ghost m = *mode;
        let ghost l0 = old(self).last_presence@;
        let ghost d = drain_spec(full, m, l0);
        self.buf.append(text);
        let mut out: Vec<String> = Vec::new();
        let mut going: bool = true;
        while going
            invariant
                self.inv(),
                m == *mode,
                out@.len() <= d.0.len(),
                drain_spec(self.buf@, m, self.last_presence@) == (
                    d.0.skip(out@.len() as int),
                    d.1,
                    d.2,
                ),
                forall|i: int| 0 <= i < out@.len() ==> out@[i]@ == d.0[i],
                !going ==> stanza_end_spec(self.buf@) is None,
            decreases self.buf@.len(), if going {
                1int
            } else {
                0int
            },
        {
            let end_opt = find_stanza_end(self.buf.as_str());
            match end_opt {
                None => {
                    going = false;
                },
                Some(end) => {
                    let bn: usize = self.buf.as_str().unicode_len();
                    let stanza: String = String::from_str(
                        self.buf.as_str().substring_char(0, end),
                    );
                    let rest: String = String::from_str(
                        self.buf.as_str().substring_char(end, bn),
                    );
                    proof {
                        assert(stanza@ =~= self.buf@.take(end as int));
                        assert(rest@ =~= self.buf@.skip(end as int));
                    }
                    let ghost st = self.buf@.take(end as int);
                    let ghost pre_last = self.last_presence@;
                    let ghost k = out@.len() as int;
                    self.buf = rest;
                    if is_cacheable(stanza.as_str()) {
                        self.last_presence = stanza.clone();
                    }
                    let ghost prev_out = out@;
                    let filtered = filter_outgoing(stanza.as_str(), mode);
                    proof {
                        assert(stanza@ == st);
                        assert(filtered@ == filter_spec(st, m));
                    }
                    out.push(filtered);
                    proof {
                        let tail = drain_spec(self.buf@, m, self.last_presence@);
                        assert(d.0.skip(k) == seq![filter_spec(st, m)] + tail.0);
                        assert(d.0.skip(k)[0] == filter_spec(st, m));
                        assert(d.0[k] == filter_spec(st, m));
                        assert(d.0.skip(k).skip(1) =~= d.0.skip(k + 1));
                        assert((seq![filter_spec(st, m)] + tail.0).skip(1) =~= tail.0);
                        assert(tail.0 == d.0.skip(k + 1));
                        assert(out@ == prev_out.push(out@[k]));
                        assert(out@[k]@ == filter_spec(st, m));
                        assert forall|i: int| 0 <= i < out@.len() implies out@[i]@ == d.0[i] by {
                            if i < k {
                                assert(out@[i] == prev_out[i]);
                            }
                        }
                    }
                },
            }
        }
        proof {
            assert(d.0.skip(out@.len() as int).len() == 0);
            assert(out@.len() == d.0.len());
        }
        out
    }

    /// The stanza to inject upstream when the stealth mode changes: switching
    /// to `Offline` sends the minimal unavailable broadcast; switching to
    /// `Online` re-sends the cached presence, or a bare presence when none
    /// was cached.
    pub fn on_mode_change(&self, mode: &StealthMode) -> (r: String)
        ensures
            r@ == inject_spec(*mode, self.last_presence@),
    {
        if *mode == StealthMode::Offline {
            let r = String::from_str("<presence type=\"unavailable\"/>");
            proof {
                reveal_strlit("<presence type=\"unavailable\"/>");
                assert("<presence type=\"unavailable\"/>"@ =~= offline_inject());
            }
            r
        } else if self.last_presence.as_str().unicode_len() > 0 {
            self.last_presence.clone()
        } else {
            let r = String::from_str("<presence/>");
            proof {
                reveal_strlit("<presence/>");
                assert("<presence/>"@ =~= minimal_presence());
            }
            r
        }
    }

    /// Hand back whatever partial text is still buffered, emptying the
    /// buffer: flushed to the upstream writer when the client disconnects.
    pub fn take_remainder(&mut self) -> (r: String)
        ensures
            r@ == old(self).buf@,
            final(self).buf@.len() == 0,
            final(self).last_presence@ == old(self).last_presence@,
            old(self).inv() ==> final(self).inv(),
    {
        let r = self.buf.clone();
        self.buf = String::new();
        r
    }
}

} // verus!
