//! Settlement tracking: the store of issued quotes and how observed
//! on-chain transfers settle them.

use vstd::prelude::*;
use crate::address::EthAddress;
use crate::text::{decimal_chars, hex_char, hex_lower, limbs_value, parse_hex20, prefixed_hex, u256_decimal};

verus! {

/// Lifecycle of a payment tracked by the watcher.
#[derive(Clone, Copy, PartialEq, Eq, Structural, Debug)]
pub enum SettlementStatus {
    /// Quote issued; the transfer has not been seen yet.
    Pending,
    /// The transfer was observed on-chain.
    Confirmed,
    /// Marked failed.
    Failed,
}

/// One tracked quote.
pub struct WatcherEntry {
    pub quote_id: String,
    pub chain_name: String,
    /// Wallet address receiving the output token, as the request gave it.
    pub recipient: String,
    /// Contract address of the output token, watched for transfers.
    pub token_out_addr: String,
    /// Minimum expected output in raw units.
    pub amount_out_min: String,
    pub status: SettlementStatus,
    pub tx_hash: Option<String>,
    pub block_number: Option<u64>,
    /// Settled amount in raw units.
    pub settled_amount: Option<String>,
}

/// The contents of a `WatcherEntry`, with strings as character sequences.
pub struct EntryView {
    pub quote_id: Seq<char>,
    pub chain_name: Seq<char>,
    pub recipient: Seq<char>,
    pub token_out_addr: Seq<char>,
    pub amount_out_min: Seq<char>,
    pub status: SettlementStatus,
    pub tx_hash: Option<Seq<char>>,
    pub block_number: Option<u64>,
    pub settled_amount: Option<Seq<char>>,
}

/// The characters of an optional string.
pub open spec fn opt_chars(o: Option<String>) -> Option<Seq<char>> {
    match o {
        Some(s) => Some(s@),
        None => None,
    }
}

impl View for WatcherEntry {
    type V = EntryView;

    open spec fn view(&self) -> EntryView {
        EntryView {
            quote_id: self.quote_id@,
            chain_name: self.chain_name@,
            recipient: self.recipient@,
            token_out_addr: self.token_out_addr@,
            amount_out_min: self.amount_out_min@,
            status: self.status,
            tx_hash: opt_chars(self.tx_hash),
            block_number: self.block_number,
            settled_amount: opt_chars(self.settled_amount),
        }
    }
}

fn copy_opt_string(o: &Option<String>) -> (res: Option<String>)
    ensures
        opt_chars(res) == opt_chars(*o),
{
    match o {
        Some(s) => Some(s.clone()),
        None => None,
    }
}

impl WatcherEntry {
    /// A freshly issued quote awaiting settlement.
    pub fn pending(
        quote_id: String,
        chain_name: String,
        recipient: String,
        token_out_addr: String,
        amount_out_min: String,
    ) -> (res: WatcherEntry)
        ensures
            res@ == (EntryView {
                quote_id: quote_id@,
                chain_name: chain_name@,
                recipient: recipient@,
                token_out_addr: token_out_addr@,
                amount_out_min: amount_out_min@,
                status: SettlementStatus::Pending,
                tx_hash: None,
                block_number: None,
                settled_amount: None,
            }),
    {
        WatcherEntry {
            quote_id,
            chain_name,
            recipient,
            token_out_addr,
            amount_out_min,
            status: SettlementStatus::Pending,
            tx_hash: None,
            block_number: None,
            settled_amount: None,
        }
    }

    /// A copy of the entry.
    pub fn duplicate(&self) -> (res: WatcherEntry)
        ensures
            res@ == self@,
    {
        WatcherEntry {
            quote_id: self.quote_id.clone(),
            chain_name: self.chain_name.clone(),
            recipient: self.recipient.clone(),
            token_out_addr: self.token_out_addr.clone(),
            amount_out_min: self.amount_out_min.clone(),
            status: self.status,
            tx_hash: copy_opt_string(&self.tx_hash),
            block_number: self.block_number,
            settled_amount: copy_opt_string(&self.settled_amount),
        }
    }

    /// The recipient and the output token contract to watch for this entry,
    /// when both parse as addresses.
    pub fn watch_target(&self) -> (res: Option<(EthAddress, EthAddress)>)
        ensures
            match res {
                Some((recipient, token)) => parse_hex20(self.recipient@) == Some(recipient.bytes@)
                    && parse_hex20(self.token_out_addr@) == Some(token.bytes@),
                None => parse_hex20(self.recipient@) is None || parse_hex20(
                    self.token_out_addr@,
                ) is None,
            },
    {
        match EthAddress::parse(self.recipient.as_str()) {
            Some(recipient) => match EthAddress::parse(self.token_out_addr.as_str()) {
                Some(token) => Some((recipient, token)),
                None => None,
            },
            None => None,
        }
    }
}

/// A log returned for the watcher's transfer filter. `value` is the
/// transferred amount when the log decodes as an ERC-20 `Transfer` event
/// (as four little-endian 64-bit limbs) and `None` otherwise.
pub struct TransferLog {
    pub value: Option<[u64; 4]>,
    pub tx_hash: Option<[u8; 32]>,
    pub block_number: Option<u64>,
}

/// Index of the first log that decodes as a transfer.
pub open spec fn first_transfer(logs: Seq<TransferLog>) -> Option<int>
    decreases logs.len(),
{
    if logs.len() == 0 {
        None
    } else if logs[0].value is Some {
        Some(0)
    } else {
        match first_transfer(logs.drop_first()) {
            Some(i) => Some(i + 1),
            None => None,
        }
    }
}

/// An entry after the given transfer settled it.
pub open spec fn settled_view(e: EntryView, log: TransferLog) -> EntryView {
    EntryView {
        status: SettlementStatus::Confirmed,
        tx_hash: match log.tx_hash {
            Some(h) => Some(prefixed_hex(h@)),
            None => None,
        },
        block_number: log.block_number,
        settled_amount: Some(decimal_chars(limbs_value(log.value->0@))),
        ..e
    }
}

/// Tracked quotes by id.
pub type StoreView = Map<Seq<char>, EntryView>;

/// Registering an entry: it replaces any entry with the same id.
pub open spec fn spec_register(m: StoreView, e: EntryView) -> StoreView {
    m.insert(e.quote_id, e)
}

/// Settling a quote with a transfer: a pending entry becomes confirmed with
/// the transfer's hash, block and amount; anything else is left as it is.
pub open spec fn spec_settle(m: StoreView, id: Seq<char>, log: TransferLog) -> StoreView {
    if m.contains_key(id) && m[id].status == SettlementStatus::Pending {
        m.insert(id, settled_view(m[id], log))
    } else {
        m
    }
}

/// Ids of the pending entries of one chain.
pub open spec fn pending_ids(m: StoreView, chain: Seq<char>) -> Set<Seq<char>> {
    Set::new(
        |k: Seq<char>|
            m.contains_key(k) && m[k].chain_name == chain && m[k].status
                == SettlementStatus::Pending,
    )
}

/// Whether some element of `s` has id `k`.
pub open spec fn has_id(s: Seq<EntryView>, k: Seq<char>) -> bool {
    exists|i: int| 0 <= i < s.len() && (#[trigger] s[i]).quote_id == k
}

/// Position of an element of `s` with id `k`.
pub open spec fn index_of(s: Seq<EntryView>, k: Seq<char>) -> int {
    choose|i: int| 0 <= i < s.len() && (#[trigger] s[i]).quote_id == k
}

/// Whether no two elements of `s` share an id.
pub open spec fn ids_unique(s: Seq<EntryView>) -> bool {
    forall|i: int, j: int|
        0 <= i < s.len() && 0 <= j < s.len() && i != j ==> (#[trigger] s[i]).quote_id != (
        #[trigger] s[j]).quote_id
}

/// The map from id to entry of a sequence of entries.
pub open spec fn entries_map(s: Seq<EntryView>) -> StoreView {
    Map::new(|k: Seq<char>| has_id(s, k), |k: Seq<char>| s[index_of(s, k)])
}

proof fn lemma_lookup(s: Seq<EntryView>, i: int)
    requires
        ids_unique(s),
        0 <= i < s.len(),
    ensures
        entries_map(s).contains_key(s[i].quote_id),
        entries_map(s)[s[i].quote_id] == s[i],
{
    let k = s[i].quote_id;
    assert(has_id(s, k));
    let j = index_of(s, k);
    assert(s[j].quote_id == k);
}

proof fn lemma_push(s: Seq<EntryView>, e: EntryView)
    requires
        ids_unique(s),
        !has_id(s, e.quote_id),
    ensures
        ids_unique(s.push(e)),
        entries_map(s.push(e)) =~= entries_map(s).insert(e.quote_id, e),
{
    let t = s.push(e);
    assert forall|i: int, j: int|
        0 <= i < t.len() && 0 <= j < t.len() && i != j implies (#[trigger] t[i]).quote_id != (
        #[trigger] t[j]).quote_id by {
        if i < s.len() && j < s.len() {
            assert(t[i] == s[i] && t[j] == s[j]);
        } else if i < s.len() {
            assert(t[i] == s[i]);
        } else {
            assert(t[j] == s[j]);
        }
    }
    let m = entries_map(s).insert(e.quote_id, e);
    assert forall|k: Seq<char>| #[trigger] entries_map(t).contains_key(k) <==> m.contains_key(k) by {
        if has_id(t, k) {
            let i = choose|i: int| 0 <= i < t.len() && (#[trigger] t[i]).quote_id == k;
            if i < s.len() {
                assert(t[i] == s[i]);
                assert(has_id(s, k));
            }
        }
        if has_id(s, k) {
            let i = choose|i: int| 0 <= i < s.len() && (#[trigger] s[i]).quote_id == k;
            assert(t[i] == s[i]);
        }
        if k == e.quote_id {
            assert(t[s.len() as int] == e);
        }
    }
    assert forall|k: Seq<char>| #[trigger] entries_map(t).contains_key(k) implies entries_map(t)[k]
        == m[k] by {
        if k == e.quote_id {
            assert(t[s.len() as int] == e);
            lemma_lookup(t, s.len() as int);
        } else {
            let i = choose|i: int| 0 <= i < t.len() && (#[trigger] t[i]).quote_id == k;
            assert(i < s.len());
            assert(t[i] == s[i]);
            lemma_lookup(t, i);
            lemma_lookup(s, i);
        }
    }
}

proof fn lemma_update(s: Seq<EntryView>, i: int, e: EntryView)
    requires
        ids_unique(s),
        0 <= i < s.len(),
        s[i].quote_id == e.quote_id,
    ensures
        ids_unique(s.update(i, e)),
        entries_map(s.update(i, e)) =~= entries_map(s).insert(e.quote_id, e),
{
    let t = s.update(i, e);
    assert forall|a: int, b: int|
        0 <= a < t.len() && 0 <= b < t.len() && a != b implies (#[trigger] t[a]).quote_id != (
        #[trigger] t[b]).quote_id by {
        assert(t[a].quote_id == s[a].quote_id);
        assert(t[b].quote_id == s[b].quote_id);
    }
    let m = entries_map(s).insert(e.quote_id, e);
    assert forall|k: Seq<char>| #[trigger] entries_map(t).contains_key(k) <==> m.contains_key(k) by {
        if has_id(t, k) {
            let a = choose|a: int| 0 <= a < t.len() && (#[trigger] t[a]).quote_id == k;
            assert(s[a].quote_id == k);
        }
        if has_id(s, k) {
            let a = choose|a: int| 0 <= a < s.len() && (#[trigger] s[a]).quote_id == k;
            assert(t[a].quote_id == k);
        }
        if k == e.quote_id {
            assert(t[i] == e);
        }
    }
    assert forall|k: Seq<char>| #[trigger] entries_map(t).contains_key(k) implies entries_map(t)[k]
        == m[k] by {
        let a = choose|a: int| 0 <= a < t.len() && (#[trigger] t[a]).quote_id == k;
        lemma_lookup(t, a);
        if a != i {
            assert(t[a] == s[a]);
            lemma_lookup(s, a);
        }
    }
}

proof fn lemma_first_transfer(logs: Seq<TransferLog>, i: int)
    requires
        0 <= i < logs.len(),
        logs[i].value is Some,
        forall|j: int| 0 <= j < i ==> logs[j].value is None,
    ensures
        first_transfer(logs) == Some(i),
    decreases i,
{
    if i > 0 {
        let t = logs.drop_first();
        assert forall|j: int| 0 <= j < i - 1 implies t[j].value is None by {
            assert(t[j] == logs[j + 1]);
        }
        lemma_first_transfer(t, i - 1);
    }
}

proof fn lemma_no_transfer(logs: Seq<TransferLog>)
    requires
        forall|j: int| 0 <= j < logs.len() ==> logs[j].value is None,
    ensures
        first_transfer(logs) is None,
    decreases logs.len(),
{
    if logs.len() > 0 {
        let t = logs.drop_first();
        assert forall|j: int| 0 <= j < t.len() implies t[j].value is None by {
            assert(t[j] == logs[j + 1]);
        }
        lemma_no_transfer(t);
    }
}

/// `LowerHex` of `ethers::types::H256` (fixed-hash) with the alternate flag:
/// `0x`, then each byte as two lowercase hex digits.
#[verifier::external_body]
fn h256_lower_hex(bytes: [u8; 32]) -> (res: String)
    ensures
        res@ == prefixed_hex(bytes@),
{
    format!("{:#x}", ethers::types::H256(bytes))
}

/// The tracked quotes, by id.
pub struct WatcherStore {
    entries: Vec<WatcherEntry>,
}

impl WatcherStore {
    /// The entries in storage order.
    pub closed spec fn entry_views(self) -> Seq<EntryView> {
        self.entries@.map_values(|e: WatcherEntry| e@)
    }

    #[verifier::type_invariant]
    closed spec fn unique_ids(self) -> bool {
        ids_unique(self.entry_views())
    }

    /// The tracked entries by quote id.
    pub closed spec fn view(self) -> StoreView {
        entries_map(self.entry_views())
    }

    /// Each entry of the view is found under its own id.
    proof fn lemma_view_keys(self, k: Seq<char>)
        requires
            self.view().contains_key(k),
        ensures
            self.view()[k].quote_id == k,
    {
        let s = self.entry_views();
        assert(has_id(s, k));
        assert(s[index_of(s, k)].quote_id == k);
    }

    /// An empty store.
    pub fn new() -> (res: WatcherStore)
        ensures
            res.view() == Map::<Seq<char>, EntryView>::empty(),
    {
        let res = WatcherStore { entries: Vec::new() };
        assert(res.view() =~= Map::<Seq<char>, EntryView>::empty());
        res
    }

    /// Position of the entry with the given id, if any.
    fn position(&self, quote_id: &String) -> (res: Option<usize>)
        ensures
            match res {
                Some(i) => i < self.entries@.len() && self.entry_views()[i as int].quote_id
                    == quote_id@,
                None => !has_id(self.entry_views(), quote_id@),
            },
    {
        let mut i: usize = 0;
        while i < self.entries.len()
            invariant
                i <= self.entries@.len(),
                forall|j: int| 0 <= j < i ==> self.entry_views()[j].quote_id != quote_id@,
            decreases self.entries@.len() - i,
        {
            if self.entries[i].quote_id == *quote_id {
                return Some(i);
            }
            i = i + 1;
        }
        None
    }

    /// Tracks an entry under its quote id, replacing any entry with that id.
    pub fn insert(&mut self, entry: WatcherEntry)
        ensures
            final(self).view() == spec_register(old(self).view(), entry@),
    {
        proof {
            use_type_invariant(&*self);
        }
        let ghost e = entry@;
        let ghost s = self.entry_views();
        match self.position(&entry.quote_id) {
            Some(i) => {
                proof {
                    lemma_update(s, i as int, e);
                }
                let mut entries: Vec<WatcherEntry> = Vec::new();
                std::mem::swap(&mut entries, &mut self.entries);
                entries.set(i, entry);
                assert(entries@.map_values(|x: WatcherEntry| x@) =~= s.update(i as int, e));
                self.entries = entries;
            },
            None => {
                proof {
                    lemma_push(s, e);
                }
                let mut entries: Vec<WatcherEntry> = Vec::new();
                std::mem::swap(&mut entries, &mut self.entries);
                entries.push(entry);
                assert(entries@.map_values(|x: WatcherEntry| x@) =~= s.push(e));
                self.entries = entries;
            },
        }
    }

    /// A copy of the entry with the given quote id.
    pub fn get(&self, quote_id: &String) -> (res: Option<WatcherEntry>)
        ensures
            match res {
                Some(e) => self.view().contains_key(quote_id@) && e@ == self.view()[quote_id@],
                None => !self.view().contains_key(quote_id@),
            },
    {
        proof {
            use_type_invariant(self);
        }
        match self.position(quote_id) {
            Some(i) => {
                proof {
                    lemma_lookup(self.entry_views(), i as int);
                }
                Some(self.entries[i].duplicate())
            },
            None => None,
        }
    }

    /// Copies of the pending entries of one chain, each once, in no
    /// particular order.
    pub fn pending_for_chain(&self, chain: &String) -> (res: Vec<WatcherEntry>)
        ensures
            forall|j: int|
                0 <= j < res@.len() ==> {
                    &&& pending_ids(self.view(), chain@).contains((#[trigger] res@[j])@.quote_id)
                    &&& self.view()[res@[j]@.quote_id] == res@[j]@
                },
            forall|k: Seq<char>|
                #[trigger] pending_ids(self.view(), chain@).contains(k) ==> exists|j: int|
                    0 <= j < res@.len() && (#[trigger] res@[j])@.quote_id == k,
            ids_unique(res@.map_values(|e: WatcherEntry| e@)),
    {
        proof {
            use_type_invariant(self);
        }
        let ghost ev = self.entry_views();
        let mut res: Vec<WatcherEntry> = Vec::new();
        let ghost mut idx: Seq<int> = Seq::empty();
        let mut i: usize = 0;
        while i < self.entries.len()
            invariant
                ev == self.entry_views(),
                ids_unique(ev),
                i <= self.entries@.len(),
                idx.len() == res@.len(),
                forall|j: int| 0 <= j < idx.len() ==> 0 <= #[trigger] idx[j] < i,
                forall|j: int, l: int| 0 <= j < l < idx.len() ==> idx[j] < idx[l],
                forall|j: int| 0 <= j < idx.len() ==> ev[#[trigger] idx[j]] == res@[j]@,
                forall|j: int| 0 <= j < idx.len() ==> (#[trigger] res@[j])@.chain_name == chain@,
                forall|j: int|
                    0 <= j < idx.len() ==> (#[trigger] res@[j])@.status == SettlementStatus::Pending,
                forall|a: int|
                    0 <= a < i && ev[a].chain_name == chain@ && ev[a].status
                        == SettlementStatus::Pending ==> exists|j: int|
                        0 <= j < idx.len() && #[trigger] idx[j] == a,
            decreases self.entries@.len() - i,
        {
            let e = &self.entries[i];
            assert(ev[i as int] == self.entries@[i as int]@);
            if e.chain_name == *chain && e.status == SettlementStatus::Pending {
                let d = e.duplicate();
                let ghost old_res = res@;
                let ghost old_idx = idx;
                res.push(d);
                proof {
                    idx = idx.push(i as int);
                    assert(idx[idx.len() - 1] == i as int);
                    assert(d@ == self.entries@[i as int]@);
                    assert(res@[res@.len() - 1] == d);
                    assert(d@.chain_name == chain@);
                    assert(d@.status == SettlementStatus::Pending);
                    assert forall|j: int| 0 <= j < idx.len() implies ev[#[trigger] idx[j]] == res@[j]@
                        && (#[trigger] res@[j])@.chain_name == chain@ && res@[j]@.status
                        == SettlementStatus::Pending by {
                        if j < old_idx.len() {
                            assert(idx[j] == old_idx[j]);
                            assert(res@[j] == old_res[j]);
                        }
                    }
                    assert forall|a: int|
                        0 <= a < i + 1 && ev[a].chain_name == chain@ && ev[a].status
                            == SettlementStatus::Pending implies exists|j: int|
                        0 <= j < idx.len() && #[trigger] idx[j] == a by {
                        if a < i {
                            let j = choose|j: int| 0 <= j < old_idx.len() && #[trigger] old_idx[j] == a;
                            assert(idx[j] == old_idx[j]);
                        } else {
                            assert(idx[idx.len() - 1] == a);
                        }
                    }
                }
            }
            i = i + 1;
        }
        proof {
            let rv = res@.map_values(|e: WatcherEntry| e@);
            assert forall|j: int| 0 <= j < res@.len() implies {
                &&& pending_ids(self.view(), chain@).contains((#[trigger] res@[j])@.quote_id)
                &&& self.view()[res@[j]@.quote_id] == res@[j]@
            } by {
                lemma_lookup(ev, idx[j]);
            }
            assert forall|k: Seq<char>| #[trigger]
                pending_ids(self.view(), chain@).contains(k) implies exists|j: int|
                0 <= j < res@.len() && (#[trigger] res@[j])@.quote_id == k by {
                let a = index_of(ev, k);
                assert(ev[a].quote_id == k);
                let j = choose|j: int| 0 <= j < idx.len() && #[trigger] idx[j] == a;
                assert(res@[j]@ == ev[a]);
            }
            assert forall|j: int, l: int|
                0 <= j < rv.len() && 0 <= l < rv.len() && j != l implies (#[trigger] rv[j]).quote_id
                != (#[trigger] rv[l]).quote_id by {
                assert(rv[j] == ev[idx[j]]);
                assert(rv[l] == ev[idx[l]]);
                if j < l {
                    assert(idx[j] < idx[l]);
                } else {
                    assert(idx[l] < idx[j]);
                }
            }
        }
        res
    }

    /// Settles a quote with a transfer when the quote is pending; leaves the
    /// store as it is otherwise.
    pub fn settle(&mut self, quote_id: &String, log: &TransferLog)
        requires
            log.value is Some,
        ensures
            final(self).view() == spec_settle(old(self).view(), quote_id@, *log),
    {
        proof {
            use_type_invariant(&*self);
        }
        let ghost s = self.entry_views();
        match self.position(quote_id) {
            Some(i) => {
                proof {
                    lemma_lookup(s, i as int);
                }
                if self.entries[i].status == SettlementStatus::Pending {
                    let mut e = self.entries[i].duplicate();
                    e.status = SettlementStatus::Confirmed;
                    e.tx_hash = match log.tx_hash {
                        Some(h) => Some(h256_lower_hex(h)),
                        None => None,
                    };
                    e.block_number = log.block_number;
                    e.settled_amount = match log.value {
                        Some(v) => Some(u256_decimal(v)),
                        None => None,
                    };
                    let ghost ne = e@;
                    assert(ne == settled_view(s[i as int], *log));
                    proof {
                        lemma_update(s, i as int, ne);
                    }
                    let mut entries: Vec<WatcherEntry> = Vec::new();
                    std::mem::swap(&mut entries, &mut self.entries);
                    entries.set(i, e);
                    assert(entries@.map_values(|x: WatcherEntry| x@) =~= s.update(i as int, ne));
                    self.entries = entries;
                }
            },
            None => {},
        }
    }

    /// Applies the logs found for a quote: the first log that decodes as a
    /// transfer settles it, and later logs are ignored.
    pub fn apply_transfer_logs(&mut self, quote_id: &String, logs: &Vec<TransferLog>)
        ensures
            final(self).view() == match first_transfer(logs@) {
                Some(i) => spec_settle(old(self).view(), quote_id@, logs@[i]),
                None => old(self).view(),
            },
    {
        let ghost before = self.view();
        let mut i: usize = 0;
        while i < logs.len()
            invariant
                self.view() == before,
                before == old(self).view(),
                i <= logs@.len(),
                forall|j: int| 0 <= j < i ==> logs@[j].value is None,
            decreases logs@.len() - i,
        {
            if logs[i].value.is_some() {
                proof {
                    lemma_first_transfer(logs@, i as int);
                }
                self.settle(quote_id, &logs[i]);
                return;
            }
            i = i + 1;
        }
        proof {
            lemma_no_transfer(logs@);
        }
    }
}

/// Every tracked entry is found under its own quote id.
pub proof fn law_entries_keyed_by_id(store: WatcherStore, k: Seq<char>)
    requires
        store.view().contains_key(k),
    ensures
        store.view()[k].quote_id == k,
{
    store.lemma_view_keys(k);
}

/// Registering a quote makes it the entry found under its id.
pub proof fn law_register_then_lookup(m: StoreView, e: EntryView)
    ensures
        spec_register(m, e).contains_key(e.quote_id),
        spec_register(m, e)[e.quote_id] == e,
{
}

/// Registering a quote leaves every other quote as it was.
pub proof fn law_register_keeps_others(m: StoreView, e: EntryView, k: Seq<char>)
    requires
        k != e.quote_id,
    ensures
        spec_register(m, e).contains_key(k) == m.contains_key(k),
        m.contains_key(k) ==> spec_register(m, e)[k] == m[k],
{
}

/// Settling a quote a second time changes nothing: the first transfer wins.
pub proof fn law_settle_idempotent(m: StoreView, id: Seq<char>, first: TransferLog, second: TransferLog)
    ensures
        spec_settle(spec_settle(m, id, first), id, second) == spec_settle(m, id, first),
{
}

/// Only a pending quote is settled: a confirmed or failed one, or an unknown
/// id, leaves the store as it is.
pub proof fn law_settle_only_pending(m: StoreView, id: Seq<char>, log: TransferLog)
    requires
        !(m.contains_key(id) && m[id].status == SettlementStatus::Pending),
    ensures
        spec_settle(m, id, log) == m,
{
}

/// A pending quote that is settled becomes confirmed and keeps what the quote
/// promised.
pub proof fn law_settle_confirms(m: StoreView, id: Seq<char>, log: TransferLog)
    requires
        m.contains_key(id),
        m[id].status == SettlementStatus::Pending,
    ensures
        spec_settle(m, id, log).contains_key(id),
        spec_settle(m, id, log)[id].status == SettlementStatus::Confirmed,
        spec_settle(m, id, log)[id].quote_id == m[id].quote_id,
        spec_settle(m, id, log)[id].chain_name == m[id].chain_name,
        spec_settle(m, id, log)[id].recipient == m[id].recipient,
        spec_settle(m, id, log)[id].token_out_addr == m[id].token_out_addr,
        spec_settle(m, id, log)[id].amount_out_min == m[id].amount_out_min,
{
}

/// Settling a quote touches no other quote.
pub proof fn law_settle_keeps_others(m: StoreView, id: Seq<char>, log: TransferLog, k: Seq<char>)
    requires
        k != id,
    ensures
        spec_settle(m, id, log).contains_key(k) == m.contains_key(k),
        m.contains_key(k) ==> spec_settle(m, id, log)[k] == m[k],
{
}

/// After settling, the settled quote is no longer pending on any chain and
/// every other pending quote still is.
pub proof fn law_settle_pending_set(m: StoreView, id: Seq<char>, log: TransferLog, chain: Seq<char>)
    ensures
        pending_ids(spec_settle(m, id, log), chain) == pending_ids(m, chain).remove(id),
{
    assert(pending_ids(spec_settle(m, id, log), chain) =~= pending_ids(m, chain).remove(id));
}

/// Registering a pending quote adds it to its chain's pending set; the
/// pending sets otherwise keep their members, except for a replaced entry
/// under the same id.
pub proof fn law_register_pending_set(m: StoreView, e: EntryView, chain: Seq<char>)
    ensures
        pending_ids(spec_register(m, e), chain) == if e.chain_name == chain && e.status
            == SettlementStatus::Pending {
            pending_ids(m, chain).insert(e.quote_id)
        } else {
            pending_ids(m, chain).remove(e.quote_id)
        },
{
    if e.chain_name == chain && e.status == SettlementStatus::Pending {
        assert(pending_ids(spec_register(m, e), chain) =~= pending_ids(m, chain).insert(e.quote_id));
    } else {
        assert(pending_ids(spec_register(m, e), chain) =~= pending_ids(m, chain).remove(e.quote_id));
    }
}

/// Settling a pending quote records the transfer as observed: its hash as
/// `0x` followed by two lowercase hex digits per byte, byte 0 first, its
/// block, and its amount in decimal.
pub proof fn law_settle_records_transfer(m: StoreView, id: Seq<char>, log: TransferLog)
    requires
        m.contains_key(id),
        m[id].status == SettlementStatus::Pending,
        log.value is Some,
    ensures
        spec_settle(m, id, log)[id].block_number == log.block_number,
        spec_settle(m, id, log)[id].settled_amount == Some(
            decimal_chars(limbs_value(log.value->0@)),
        ),
        log.tx_hash is None ==> spec_settle(m, id, log)[id].tx_hash is None,
        log.tx_hash matches Some(h) ==> {
            let t = spec_settle(m, id, log)[id].tx_hash->0;
            &&& spec_settle(m, id, log)[id].tx_hash is Some
            &&& t.len() == 66
            &&& t[0] == '0'
            &&& t[1] == 'x'
            &&& forall|i: int|
                0 <= i < 32 ==> t[2 + 2 * i] == hex_char((h@[i] / 16) as nat) && t[3 + 2 * i]
                    == hex_char((h@[i] % 16) as nat)
        },
{
    if let Some(h) = log.tx_hash {
        let t = spec_settle(m, id, log)[id].tx_hash->0;
        assert(t == prefixed_hex(h@));
        assert forall|i: int| 0 <= i < 32 implies t[2 + 2 * i] == hex_char((h@[i] / 16) as nat)
            && t[3 + 2 * i] == hex_char((h@[i] % 16) as nat) by {
            assert((2 * i) % 2 == 0 && (2 * i) / 2 == i);
            assert((2 * i + 1) % 2 == 1 && (2 * i + 1) / 2 == i);
            assert(t[2 + 2 * i] == hex_lower(h@)[2 * i]);
            assert(t[3 + 2 * i] == hex_lower(h@)[2 * i + 1]);
        }
    }
}

} // verus!
