//! What the verbs of the scenario layer guarantee of the commands they send
//! and of the answers they accept.

use vstd::prelude::*;
use vstd::string::*;

use super::error::ErrorView;
use super::memcache;
use super::meta_api;
use super::meta_api::SetMode;
use super::meta_command::MetaCommandView;
use super::scenario;
use super::scenario::{FetchStepView, ReadFacts, StaleWin};
use super::semantics;
use super::ttl::Ttl;
use super::value::{Encode, EncodedView};
use crate::bytes;
use crate::decimal;
use crate::time::SystemTime;

verus! {

/// A flag with a number.
pub open spec fn numbered(letter: char, n: nat) -> Seq<u8> {
    seq![letter as u8] + decimal::decimal(n)
}

/// Whether a command has a flag with this letter.
pub open spec fn has_letter(command: MetaCommandView, letter: char) -> bool {
    exists|i: int|
        0 <= i < command.flags.len() && (#[trigger] command.flags[i]).len() > 0 && command.flags[i][0] == letter as u8
}

/// `incr` and `decr` count from zero on a miss: the item that is created starts
/// at the delta, or at zero where it is subtracted. The TTL goes with the
/// creation alone, so counting again never extends it.
pub proof fn lemma_counters_start_from_zero_and_keep_their_window(
    key: Seq<u8>,
    delta: u64,
    decrement: bool,
    ttl: Ttl,
    now: SystemTime,
)
    ensures
        match scenario::counter_plan(key, delta, decrement, ttl, now) {
            Ok(command) => {
                &&& ttl.wire_spec(now) is Ok
                &&& command.flags.contains(numbered('D', delta as nat))
                &&& command.flags.contains(
                    numbered(
                        'J',
                        if decrement {
                            0
                        } else {
                            delta as nat
                        },
                    ),
                )
                &&& command.flags.contains(numbered('N', ttl.wire_spec(now)->Ok_0 as nat))
                &&& !has_letter(command, 'T')
            },
            Err(e) => ttl.wire_spec(now) is Err && ttl.wire_spec(now)->Err_0 == e,
        },
{
    reveal_strlit("MD");
    reveal_strlit("v");
    bytes::lemma_ascii_literal("MD");
    bytes::lemma_ascii_literal("v");
    if let Ok(n) = ttl.wire_spec(now) {
        let command = scenario::counter_plan(key, delta, decrement, ttl, now)->Ok_0;
        let initial = if decrement {
            0
        } else {
            delta as nat
        };
        let tail = seq![
            bytes::utf8("v"),
            numbered('D', delta as nat),
            numbered('N', n as nat),
            numbered('J', initial),
        ];
        let at = if decrement {
            assert(command.flags =~= seq![bytes::utf8("MD")] + tail);
            1int
        } else {
            assert(command.flags =~= tail);
            0int
        };
        assert(command.flags[at + 1] == numbered('D', delta as nat));
        assert(command.flags[at + 2] == numbered('N', n as nat));
        assert(command.flags[at + 3] == numbered('J', initial));
        assert forall|i: int| 0 <= i < command.flags.len() && (#[trigger] command.flags[i]).len() > 0 implies
            command.flags[i][0] != 'T' as u8 by {
            if i >= at {
                assert(command.flags[i] == tail[i - at]);
            }
        }
    }
}

/// `append` and `prepend` create a missing item with the TTL and never extend
/// that of an item that is there. A fragment is never empty.
pub proof fn lemma_fragments_keep_the_lifetime(
    key: Seq<u8>,
    fragment: Seq<u8>,
    ttl: Ttl,
    prepend: bool,
    now: SystemTime,
)
    ensures
        scenario::concat_plan(key, fragment, ttl, prepend, now) matches Ok(command) ==> {
            &&& fragment.len() > 0
            &&& command.value == Some(fragment)
            &&& ttl.wire_spec(now) is Ok
            &&& command.flags.contains(numbered('N', ttl.wire_spec(now)->Ok_0 as nat))
            &&& !has_letter(command, 'T')
        },
{
    reveal_strlit("MA");
    reveal_strlit("MP");
    bytes::lemma_ascii_literal("MA");
    bytes::lemma_ascii_literal("MP");
    if let Ok(command) = scenario::concat_plan(key, fragment, ttl, prepend, now) {
        let n = ttl.wire_spec(now)->Ok_0;
        let mode = if prepend {
            bytes::utf8("MP")
        } else {
            bytes::utf8("MA")
        };
        assert(command.flags =~= seq![mode, numbered('N', n as nat)]);
        assert(command.flags[1] == numbered('N', n as nat));
    }
}

/// `inspect` is a probe: it transfers no value, changes nothing on the server
/// and does not count as an access.
pub proof fn lemma_inspect_is_a_probe(key: Seq<u8>)
    ensures
        scenario::inspect_plan(key) matches Ok(command) && !command.has_side_effect() && !command.flags.contains(
            bytes::utf8("v"),
        ) && command.flags.contains(bytes::utf8("u")),
{
    reveal_strlit("v");
    reveal_strlit("c");
    reveal_strlit("t");
    reveal_strlit("s");
    reveal_strlit("l");
    reveal_strlit("h");
    reveal_strlit("u");
    bytes::lemma_ascii_literal("v");
    bytes::lemma_ascii_literal("c");
    bytes::lemma_ascii_literal("t");
    bytes::lemma_ascii_literal("s");
    bytes::lemma_ascii_literal("l");
    bytes::lemma_ascii_literal("h");
    bytes::lemma_ascii_literal("u");
    let command = scenario::inspect_plan(key)->Ok_0;
    let flags = seq![
        bytes::utf8("c"),
        bytes::utf8("t"),
        bytes::utf8("s"),
        bytes::utf8("l"),
        bytes::utf8("h"),
        bytes::utf8("u"),
    ];
    assert(command.flags =~= flags);
    assert(command.flags[5] == bytes::utf8("u"));
    assert forall|i: int| 0 <= i < flags.len() implies (#[trigger] flags[i])[0] != 'v' as u8
        && !MetaCommandView::is_effect_flag(flags[i]) by {}
    assert(bytes::utf8("v")[0] == 'v' as u8);
}

/// `touch` transfers no value and sets the new expiry.
pub proof fn lemma_touch_transfers_no_value(key: Seq<u8>, ttl: Ttl, now: SystemTime)
    ensures
        scenario::touch_plan(key, ttl, now) matches Ok(command) ==> {
            &&& ttl.wire_spec(now) is Ok
            &&& command.flags.contains(numbered('T', ttl.wire_spec(now)->Ok_0 as nat))
            &&& !command.flags.contains(bytes::utf8("v"))
        },
{
    reveal_strlit("v");
    reveal_strlit("c");
    reveal_strlit("t");
    bytes::lemma_ascii_literal("v");
    bytes::lemma_ascii_literal("c");
    bytes::lemma_ascii_literal("t");
    if let Ok(command) = scenario::touch_plan(key, ttl, now) {
        let n = ttl.wire_spec(now)->Ok_0;
        let flags = seq![bytes::utf8("c"), bytes::utf8("t"), numbered('T', n as nat)];
        assert(command.flags =~= flags);
        assert(command.flags[2] == numbered('T', n as nat));
        assert forall|i: int| 0 <= i < flags.len() implies (#[trigger] flags[i])[0] != 'v' as u8 by {}
        assert(bytes::utf8("v")[0] == 'v' as u8);
    }
}

/// What acts on an earlier read is fenced by the CAS that came with it: a
/// write-back, the release of a lease, the return of a stale win and the delete
/// behind `take` each take effect only if nobody wrote the item since.
pub proof fn lemma_later_steps_are_fenced(
    key: Seq<u8>,
    value: EncodedView,
    ttl: Ttl,
    win: StaleWin,
    now: SystemTime,
)
    ensures
        scenario::store_plan(key, value, ttl, SetMode::Store, Some(win.cas), now) matches Ok(command)
            ==> command.flags.contains(numbered('C', win.cas as nat)),
        scenario::release_plan(key, win.cas) matches Ok(command) && command.flags.contains(
            numbered('C', win.cas as nat),
        ),
        scenario::return_plan(key, win, now) matches Ok(command) ==> command.flags.contains(
            numbered('C', win.cas as nat),
        ),
        scenario::erase_plan(key, None, Some(win.cas), now) matches Ok(command) && command.flags.contains(
            numbered('C', win.cas as nat),
        ),
{
    let fence = numbered('C', win.cas as nat);
    if let Ok(command) = scenario::store_plan(key, value, ttl, SetMode::Store, Some(win.cas), now) {
        let n = ttl.wire_spec(now)->Ok_0;
        let before = meta_api::token('F', meta_api::wide(semantics::wire_flags(value.flags))) + meta_api::token(
            'T',
            meta_api::wide(Some(n)),
        );
        assert(command.flags =~= before + seq![fence]);
        assert(command.flags[before.len() as int] == fence);
    }
    let release = scenario::release_plan(key, win.cas)->Ok_0;
    assert(release.flags =~= seq![fence]);
    assert(release.flags[0] == fence);
    assert(scenario::erase_plan(key, None, Some(win.cas), now) == Ok::<MetaCommandView, ErrorView>(release));
    if let Ok(command) = scenario::return_plan(key, win, now) {
        assert(command.flags[0] == bytes::utf8("I"));
        assert(command.flags[1] == fence);
    }
}

/// `update` never overwrites blindly: an item that was there is replaced only
/// as the version that was read, and where there was none the write only adds.
pub proof fn lemma_updates_never_overwrite_blindly(
    key: Seq<u8>,
    value: EncodedView,
    ttl: Ttl,
    compare_cas: Option<u64>,
    now: SystemTime,
)
    ensures
        scenario::store_plan(key, value, ttl, memcache::update_mode(compare_cas), compare_cas, now) matches Ok(command)
            ==> match compare_cas {
            Some(cas) => command.flags.contains(numbered('C', cas as nat)),
            None => command.flags.contains(bytes::utf8("ME")),
        },
{
    let mode = memcache::update_mode(compare_cas);
    if let Ok(command) = scenario::store_plan(key, value, ttl, mode, compare_cas, now) {
        let n = ttl.wire_spec(now)->Ok_0;
        let settings = meta_api::token('F', meta_api::wide(semantics::wire_flags(value.flags))) + meta_api::token(
            'T',
            meta_api::wide(Some(n)),
        );
        match compare_cas {
            Some(cas) => {
                let fence = numbered('C', cas as nat);
                assert(command.flags =~= settings + seq![fence]);
                assert(command.flags[settings.len() as int] == fence);
            },
            None => {
                assert(command.flags =~= seq![bytes::utf8("ME")] + settings);
                assert(command.flags[0] == bytes::utf8("ME"));
            },
        }
    }
}

/// What `invalidate` does to readers: an item that is kept stale is nothing to
/// `update` and `take`, so stale data is never laundered back to fresh, while
/// `fetch` keeps serving its value, to be recomputed by the one who is elected.
pub proof fn lemma_stale_data_is_served_and_never_transformed(facts: ReadFacts)
    requires
        facts.stale,
        facts.has_value(),
    ensures
        scenario::current_value(facts) is None,
        match scenario::fetch_decision(facts) {
            FetchStepView::Serve { value, flags } => value == facts.bytes() && flags == facts.flags,
            FetchStepView::Refresh { value, flags, cas } => value == facts.bytes() && flags == facts.flags && facts.won
                && facts.cas == Some(cas),
            _ => false,
        },
{
}

/// Zero-byte values are reserved: no value is stored as one, and one that is
/// read counts as a miss to every verb.
pub proof fn lemma_zero_bytes_are_reserved<V: Encode>(value: V, facts: ReadFacts)
    ensures
        scenario::value_encoding(value) matches Ok(encoded) ==> encoded.bytes.len() > 0,
        facts.bytes().len() == 0 ==> !facts.has_value() && scenario::current_value(facts) is None && !(
        scenario::fetch_decision(facts) is Serve) && !(scenario::fetch_decision(facts) is Refresh),
{
}

} // verus!
