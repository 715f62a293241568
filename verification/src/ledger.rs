use std::collections::HashMap;

use vstd::prelude::*;

use crate::balances::Balances;
use crate::errors::Error;
use crate::events::Event;
use crate::types::dup_bytes;
use crate::types::{Auction, Class, Nft, Offer};

verus! {

broadcast use vstd::std_specs::hash::group_hash_axioms;

/// The longest metadata buffer (name, description, url, external url) the
/// registry accepts; the host enforces it before calling in.
pub const MAX_METADATA_LEN: usize = 4096;

/// The whole ledger state: the token/class registry, the offer book, the
/// auction house, the currency balances and the notification stream.
///
/// One operation is one method call; it either commits atomically or returns
/// an error with the state unchanged. Class ids and token ids are allocated
/// monotonically from independent counters and never reused.
pub struct Ledger {
    classes: Vec<Class>,
    next_class: u64,
    tokens: HashMap<u64, Nft>,
    next_nft: u64,
    offers: HashMap<u64, Offer>,
    auctions: HashMap<u64, Auction>,
    balances: Balances,
    events: Vec<Event>,
}

impl Ledger {
    /// The class registered under `class_id`, if any.
    pub closed spec fn spec_class(&self, class_id: u64) -> Option<Class> {
        if (class_id as int) < self.classes@.len() {
            Some(self.classes@[class_id as int])
        } else {
            None
        }
    }

    /// The token stored under the pair of ids, if any. Token ids are unique
    /// across classes, so a token is found only under its own class.
    pub closed spec fn spec_token(&self, class_id: u64, nft_id: u64) -> Option<Nft> {
        if self.tokens@.contains_key(nft_id) && self.tokens@[nft_id].class_id == class_id {
            Some(self.tokens@[nft_id])
        } else {
            None
        }
    }

    /// The offer listed under the pair of ids, if any.
    pub closed spec fn spec_offer(&self, class_id: u64, nft_id: u64) -> Option<Offer> {
        if self.offers@.contains_key(nft_id) && self.offers@[nft_id].class_id == class_id {
            Some(self.offers@[nft_id])
        } else {
            None
        }
    }

    /// The auction open under the pair of ids, if any.
    pub closed spec fn spec_auction(&self, class_id: u64, nft_id: u64) -> Option<Auction> {
        if self.auctions@.contains_key(nft_id) && self.auctions@[nft_id].class_id == class_id {
            Some(self.auctions@[nft_id])
        } else {
            None
        }
    }

    pub closed spec fn spec_balance(&self, a: u64) -> u128 {
        self.balances.spec_balance(a)
    }

    pub closed spec fn spec_min_balance(&self) -> u128 {
        self.balances.spec_min_balance()
    }

    pub closed spec fn spec_total(&self) -> int {
        self.balances.spec_total()
    }

    pub closed spec fn spec_events(&self) -> Seq<Event> {
        self.events@
    }

    pub closed spec fn spec_next_class_id(&self) -> u64 {
        self.next_class
    }

    pub closed spec fn spec_next_nft_id(&self) -> u64 {
        self.next_nft
    }

    /// A token id that was allocated and no longer names a token: its id was
    /// consumed (minted) and the record is gone (burned). Ids are never
    /// reused, so every operation preserves this — once burned, any read of
    /// the id stays not-found, permanently.
    pub closed spec fn token_retired(&self, nft_id: u64) -> bool {
        nft_id < self.next_nft && !self.tokens@.contains_key(nft_id)
    }

    /// Internal consistency: the class store matches its id counter, token
    /// ids stay below theirs, records carry their own key, listed prices are
    /// positive, auction windows are ordered, and an auction's high bid
    /// tracks its no-bid sentinel (`spender == owner` means no accepted bid;
    /// an accepted bid always exceeds the reserve).
    pub closed spec fn wf(&self) -> bool {
        &&& self.balances.wf()
        &&& self.classes@.len() == self.next_class as int
        &&& forall|n: u64| #[trigger] self.tokens@.contains_key(n) ==> n < self.next_nft
        &&& forall|n: u64| #[trigger]
            self.offers@.contains_key(n) ==> self.offers@[n].nft_id == n && self.offers@[n].amount
                > 0
        &&& forall|n: u64| #[trigger]
            self.auctions@.contains_key(n) ==> self.auctions@[n].nft_id == n
                && self.auctions@[n].amount > 0 && self.auctions@[n].end_time
                > self.auctions@[n].start_time && (self.auctions@[n].spender
                == self.auctions@[n].owner ==> self.auctions@[n].min_amount == 0) && (
            self.auctions@[n].spender != self.auctions@[n].owner ==> self.auctions@[n].min_amount
                > self.auctions@[n].amount)
    }

    pub open spec fn same_classes(pre: Ledger, post: Ledger) -> bool {
        &&& post.spec_next_class_id() == pre.spec_next_class_id()
        &&& forall|c: u64| #[trigger] post.spec_class(c) == pre.spec_class(c)
    }

    pub open spec fn same_tokens(pre: Ledger, post: Ledger) -> bool {
        &&& post.spec_next_nft_id() == pre.spec_next_nft_id()
        &&& forall|c: u64, n: u64| #[trigger] post.spec_token(c, n) == pre.spec_token(c, n)
    }

    pub open spec fn same_offers(pre: Ledger, post: Ledger) -> bool {
        forall|c: u64, n: u64| #[trigger] post.spec_offer(c, n) == pre.spec_offer(c, n)
    }

    pub open spec fn same_auctions(pre: Ledger, post: Ledger) -> bool {
        forall|c: u64, n: u64| #[trigger] post.spec_auction(c, n) == pre.spec_auction(c, n)
    }

    pub open spec fn same_balances(pre: Ledger, post: Ledger) -> bool {
        &&& post.spec_min_balance() == pre.spec_min_balance()
        &&& post.spec_total() == pre.spec_total()
        &&& forall|a: u64| #[trigger] post.spec_balance(a) == pre.spec_balance(a)
    }

    /// No observable difference between the two states. Every rejected
    /// operation guarantees this between its pre- and post-state.
    pub open spec fn state_eq(pre: Ledger, post: Ledger) -> bool {
        &&& Ledger::same_classes(pre, post)
        &&& Ledger::same_tokens(pre, post)
        &&& Ledger::same_offers(pre, post)
        &&& Ledger::same_auctions(pre, post)
        &&& Ledger::same_balances(pre, post)
        &&& post.spec_events() == pre.spec_events()
    }

    /// An empty ledger. `min_balance` is the minimum-existence balance every
    /// payer must retain after a transfer.
    pub fn new(min_balance: u128) -> (r: Ledger)
        ensures
            r.wf(),
            r.spec_next_class_id() == 0,
            r.spec_next_nft_id() == 0,
            r.spec_min_balance() == min_balance,
            r.spec_total() == 0,
            r.spec_events() == Seq::<Event>::empty(),
            forall|c: u64| r.spec_class(c) is None,
            forall|c: u64, n: u64| r.spec_token(c, n) is None,
            forall|c: u64, n: u64| r.spec_offer(c, n) is None,
            forall|c: u64, n: u64| r.spec_auction(c, n) is None,
            forall|a: u64| r.spec_balance(a) == 0,
    {
        Ledger {
            classes: Vec::new(),
            next_class: 0,
            tokens: HashMap::new(),
            next_nft: 0,
            offers: HashMap::new(),
            auctions: HashMap::new(),
            balances: Balances::new(min_balance),
            events: Vec::new(),
        }
    }

    /// Issues `amount` new units to `account`. Host-side genesis primitive;
    /// no marketplace operation creates or destroys value.
    pub fn endow(&mut self, account: u64, amount: u128)
        requires
            old(self).wf(),
            old(self).spec_total() + amount <= u128::MAX,
        ensures
            final(self).wf(),
            final(self).spec_total() == old(self).spec_total() + amount,
            forall|x: u64|
                final(self).spec_balance(x) as int == old(self).spec_balance(x) + (if x == account {
                    amount as int
                } else {
                    0
                }),
            final(self).spec_min_balance() == old(self).spec_min_balance(),
            Ledger::same_classes(*old(self), *final(self)),
            Ledger::same_tokens(*old(self), *final(self)),
            Ledger::same_offers(*old(self), *final(self)),
            Ledger::same_auctions(*old(self), *final(self)),
            final(self).spec_events() == old(self).spec_events(),
    {
        self.balances.deposit(account, amount);
    }

    /// The total currency in circulation. Marketplace operations never
    /// change it; only `endow` does.
    pub fn total_issuance(&self) -> (r: u128)
        requires
            self.wf(),
        ensures
            r as int == self.spec_total(),
    {
        self.balances.total_issuance()
    }

    /// The balance currently recorded for `account`.
    pub fn balance_of(&self, account: u64) -> (r: u128)
        ensures
            r == self.spec_balance(account),
    {
        self.balances.balance_of(account)
    }

    /// The class registered under `class_id`, if any.
    pub fn classes(&self, class_id: u64) -> (r: Option<&Class>)
        ensures
            match r {
                Some(c) => self.spec_class(class_id) == Some(*c),
                None => self.spec_class(class_id) is None,
            },
    {
        let stored: usize = self.classes.len();
        if class_id < stored as u64 {
            proof {
                assert((class_id as usize) as int == class_id as int);
            }
            Some(&self.classes[class_id as usize])
        } else {
            None
        }
    }

    /// The token stored under the pair of ids, if any.
    pub fn nfts(&self, class_id: u64, nft_id: u64) -> (r: Option<&Nft>)
        ensures
            match r {
                Some(t) => self.spec_token(class_id, nft_id) == Some(*t),
                None => self.spec_token(class_id, nft_id) is None,
            },
    {
        match self.tokens.get(&nft_id) {
            Some(t) => {
                if t.class_id == class_id {
                    Some(t)
                } else {
                    None
                }
            },
            None => None,
        }
    }

    /// The offer listed under the pair of ids, if any.
    pub fn offers(&self, class_id: u64, nft_id: u64) -> (r: Option<&Offer>)
        ensures
            match r {
                Some(o) => self.spec_offer(class_id, nft_id) == Some(*o),
                None => self.spec_offer(class_id, nft_id) is None,
            },
    {
        match self.offers.get(&nft_id) {
            Some(o) => {
                if o.class_id == class_id {
                    Some(o)
                } else {
                    None
                }
            },
            None => None,
        }
    }

    /// The auction open under the pair of ids, if any.
    pub fn auctions(&self, class_id: u64, nft_id: u64) -> (r: Option<&Auction>)
        ensures
            match r {
                Some(a) => self.spec_auction(class_id, nft_id) == Some(*a),
                None => self.spec_auction(class_id, nft_id) is None,
            },
    {
        match self.auctions.get(&nft_id) {
            Some(a) => {
                if a.class_id == class_id {
                    Some(a)
                } else {
                    None
                }
            },
            None => None,
        }
    }

    /// The id the next registered class will get.
    pub fn next_class_id(&self) -> (r: u64)
        ensures
            r == self.spec_next_class_id(),
    {
        self.next_class
    }

    /// The id the next minted token will get.
    pub fn next_nft_id(&self) -> (r: u64)
        ensures
            r == self.spec_next_nft_id(),
    {
        self.next_nft
    }

    /// All notifications emitted so far, oldest first.
    pub fn events(&self) -> (r: &Vec<Event>)
        ensures
            r@ == self.spec_events(),
    {
        &self.events
    }

    /// Registers a new class owned by `owner` and returns its id. Never
    /// fails: the id is allocated from the class counter and the owner is
    /// fixed for good.
    pub fn create_class(
        &mut self,
        owner: u64,
        name: Vec<u8>,
        url: Vec<u8>,
        description: Vec<u8>,
        external_url: Vec<u8>,
    ) -> (class_id: u64)
        requires
            old(self).wf(),
            old(self).spec_next_class_id() < u64::MAX,
            name@.len() <= MAX_METADATA_LEN,
            url@.len() <= MAX_METADATA_LEN,
            description@.len() <= MAX_METADATA_LEN,
            external_url@.len() <= MAX_METADATA_LEN,
        ensures
            final(self).wf(),
            class_id == old(self).spec_next_class_id(),
            final(self).spec_next_class_id() == old(self).spec_next_class_id() + 1,
            final(self).spec_class(class_id) == (Some(
                Class { owner, description, name, url, external_url },
            )),
            forall|c: u64|
                c != class_id ==> #[trigger] final(self).spec_class(c) == old(self).spec_class(c),
            Ledger::same_tokens(*old(self), *final(self)),
            Ledger::same_offers(*old(self), *final(self)),
            Ledger::same_auctions(*old(self), *final(self)),
            Ledger::same_balances(*old(self), *final(self)),
            final(self).spec_events().drop_last() == old(self).spec_events(),
            final(self).spec_events().len() == old(self).spec_events().len() + 1,
            (final(self).spec_events().last() matches Event::ClassCreated {
                owner: o,
                name: n,
                url: u,
                external_url: x,
                class_id: c,
                description: d,
            } && o == owner && c == class_id && n@ == name@ && u@ == url@ && x@ == external_url@
                && d@ == description@),
            forall|n: u64|
                old(self).token_retired(n) ==> #[trigger] final(self).token_retired(n),
    {
        let class_id: u64 = self.next_class;
        let ev_name: Vec<u8> = dup_bytes(&name);
        let ev_url: Vec<u8> = dup_bytes(&url);
        let ev_description: Vec<u8> = dup_bytes(&description);
        let ev_external_url: Vec<u8> = dup_bytes(&external_url);
        let class = Class { owner, description, name, url, external_url };
        self.classes.push(class);
        self.next_class = class_id + 1;
        self.events.push(
            Event::ClassCreated {
                owner,
                name: ev_name,
                url: ev_url,
                external_url: ev_external_url,
                class_id,
                description: ev_description,
            },
        );
        proof {
            assert(self.events@.drop_last() =~= old(self).events@);
        }
        class_id
    }

    /// How `mint` decides: the class must exist and the caller must own it;
    /// on success the new token takes the next token id.
    pub open spec fn mint_outcome(pre: Ledger, caller: u64, class_id: u64) -> Result<u64, Error> {
        match pre.spec_class(class_id) {
            None => Err(Error::ClassNotFound),
            Some(class) => if class.owner != caller {
                Err(Error::NotOwner)
            } else {
                Ok(pre.spec_next_nft_id())
            },
        }
    }

    /// Mints a new token of `class_id`, owned by the caller. Only the class
    /// owner may mint into a class. The token id comes from a single global
    /// counter, so token ids are unique even across classes.
    pub fn mint(
        &mut self,
        caller: u64,
        class_id: u64,
        name: Vec<u8>,
        description: Vec<u8>,
        url: Vec<u8>,
        external_url: Vec<u8>,
    ) -> (r: Result<u64, Error>)
        requires
            old(self).wf(),
            old(self).spec_next_nft_id() < u64::MAX,
            name@.len() <= MAX_METADATA_LEN,
            url@.len() <= MAX_METADATA_LEN,
            description@.len() <= MAX_METADATA_LEN,
            external_url@.len() <= MAX_METADATA_LEN,
        ensures
            final(self).wf(),
            r == Ledger::mint_outcome(*old(self), caller, class_id),
            r is Err ==> Ledger::state_eq(*old(self), *final(self)),
            r is Ok ==> {
                &&& final(self).spec_next_nft_id() == old(self).spec_next_nft_id() + 1
                &&& final(self).spec_token(class_id, old(self).spec_next_nft_id()) == (Some(
                    Nft { owner: caller, description, name, url, external_url, class_id },
                ))
                &&& forall|c: u64|
                    c != class_id ==> #[trigger] final(self).spec_token(
                        c,
                        old(self).spec_next_nft_id(),
                    ) is None
                &&& forall|c: u64, n: u64|
                    n != old(self).spec_next_nft_id() ==> #[trigger] final(self).spec_token(c, n)
                        == old(self).spec_token(c, n)
                &&& Ledger::same_classes(*old(self), *final(self))
                &&& Ledger::same_offers(*old(self), *final(self))
                &&& Ledger::same_auctions(*old(self), *final(self))
                &&& Ledger::same_balances(*old(self), *final(self))
                &&& final(self).spec_events().drop_last() == old(self).spec_events()
                &&& final(self).spec_events().len() == old(self).spec_events().len() + 1
                &&& (final(self).spec_events().last() matches Event::Minted {
                    class_id: c,
                    owner: o,
                    name: n,
                    url: u,
                    external_url: x,
                    description: d,
                } && o == caller && c == class_id && n@ == name@ && u@ == url@ && x@
                    == external_url@ && d@ == description@)
            },
            forall|n: u64|
                old(self).token_retired(n) ==> #[trigger] final(self).token_retired(n),
    {
        if class_id >= self.next_class {
            return Err(Error::ClassNotFound);
        }
        proof {
            assert(self.classes.len() == self.classes@.len());
            assert((class_id as usize) as int == class_id as int);
        }
        let class_owner: u64 = self.classes[class_id as usize].owner;
        if class_owner != caller {
            return Err(Error::NotOwner);
        }
        let nft_id: u64 = self.next_nft;
        let ev_name: Vec<u8> = dup_bytes(&name);
        let ev_url: Vec<u8> = dup_bytes(&url);
        let ev_description: Vec<u8> = dup_bytes(&description);
        let ev_external_url: Vec<u8> = dup_bytes(&external_url);
        let nft = Nft { owner: caller, description, name, url, external_url, class_id };
        self.tokens.insert(nft_id, nft);
        self.next_nft = nft_id + 1;
        self.events.push(
            Event::Minted {
                class_id,
                owner: caller,
                name: ev_name,
                url: ev_url,
                external_url: ev_external_url,
                description: ev_description,
            },
        );
        proof {
            assert(self.events@.drop_last() =~= old(self).events@);
        }
        Ok(nft_id)
    }

    /// How `transfer` decides: both keys must name records and the caller
    /// must own the token.
    pub open spec fn transfer_outcome(pre: Ledger, caller: u64, nft_id: u64, class_id: u64) -> Result<
        (),
        Error,
    > {
        if pre.spec_class(class_id) is None {
            Err(Error::ClassNotFound)
        } else if pre.spec_token(class_id, nft_id) is None {
            Err(Error::NftNotFound)
        } else if pre.spec_token(class_id, nft_id)->Some_0.owner != caller {
            Err(Error::NotOwner)
        } else {
            Ok(())
        }
    }

    /// Reassigns the token to `to`. Only the current owner may transfer;
    /// the token's metadata is untouched.
    pub fn transfer(&mut self, caller: u64, to: u64, nft_id: u64, class_id: u64) -> (r: Result<
        (),
        Error,
    >)
        requires
            old(self).wf(),
        ensures
            final(self).wf(),
            r == Ledger::transfer_outcome(*old(self), caller, nft_id, class_id),
            r is Err ==> Ledger::state_eq(*old(self), *final(self)),
            r is Ok ==> {
                &&& (final(self).spec_token(class_id, nft_id) matches Some(t) && t.owner == to
                    && t.class_id == class_id && t.name == old(self).spec_token(
                    class_id,
                    nft_id,
                )->Some_0.name && t.description == old(self).spec_token(
                    class_id,
                    nft_id,
                )->Some_0.description && t.url == old(self).spec_token(class_id, nft_id)->Some_0.url
                    && t.external_url == old(self).spec_token(
                    class_id,
                    nft_id,
                )->Some_0.external_url)
                &&& forall|c: u64|
                    c != class_id ==> #[trigger] final(self).spec_token(c, nft_id) is None
                &&& forall|c: u64, n: u64|
                    n != nft_id ==> #[trigger] final(self).spec_token(c, n) == old(
                        self,
                    ).spec_token(c, n)
                &&& final(self).spec_next_nft_id() == old(self).spec_next_nft_id()
                &&& Ledger::same_classes(*old(self), *final(self))
                &&& Ledger::same_offers(*old(self), *final(self))
                &&& Ledger::same_auctions(*old(self), *final(self))
                &&& Ledger::same_balances(*old(self), *final(self))
                &&& final(self).spec_events() == old(self).spec_events().push(
                    (Event::TransferNft { from: caller, to, nft_id, class_id }),
                )
            },
            forall|n: u64|
                old(self).token_retired(n) ==> #[trigger] final(self).token_retired(n),
    {
        if class_id >= self.next_class {
            return Err(Error::ClassNotFound);
        }
        let token_owner: u64 = match self.nfts(class_id, nft_id) {
            Some(t) => t.owner,
            None => {
                return Err(Error::NftNotFound);
            },
        };
        if token_owner != caller {
            return Err(Error::NotOwner);
        }
        let nft: Nft = match self.tokens.remove(&nft_id) {
            Some(n) => n,
            None => vstd::pervasive::unreached(),
        };
        self.tokens.insert(nft_id, Nft { owner: to, ..nft });
        self.events.push(Event::TransferNft { from: caller, to, nft_id, class_id });
        Ok(())
    }

    /// How `burn` decides: the token must exist under the pair of ids and
    /// the caller must own it.
    pub open spec fn burn_outcome(pre: Ledger, caller: u64, nft_id: u64, class_id: u64) -> Result<
        (),
        Error,
    > {
        if pre.spec_token(class_id, nft_id) is None {
            Err(Error::NftNotFound)
        } else if pre.spec_token(class_id, nft_id)->Some_0.owner != caller {
            Err(Error::NotOwner)
        } else {
            Ok(())
        }
    }

    /// Destroys the token for good. Only the owner may burn. The id is never
    /// reused, so every later read of it stays not-found.
    pub fn burn(&mut self, caller: u64, nft_id: u64, class_id: u64) -> (r: Result<(), Error>)
        requires
            old(self).wf(),
        ensures
            final(self).wf(),
            r == Ledger::burn_outcome(*old(self), caller, nft_id, class_id),
            r is Err ==> Ledger::state_eq(*old(self), *final(self)),
            r is Ok ==> {
                &&& final(self).token_retired(nft_id)
                &&& forall|c: u64| #[trigger] final(self).spec_token(c, nft_id) is None
                &&& forall|c: u64, n: u64|
                    n != nft_id ==> #[trigger] final(self).spec_token(c, n) == old(
                        self,
                    ).spec_token(c, n)
                &&& final(self).spec_next_nft_id() == old(self).spec_next_nft_id()
                &&& Ledger::same_classes(*old(self), *final(self))
                &&& Ledger::same_offers(*old(self), *final(self))
                &&& Ledger::same_auctions(*old(self), *final(self))
                &&& Ledger::same_balances(*old(self), *final(self))
                &&& final(self).spec_events() == old(self).spec_events().push(
                    (Event::Burned { nft_id, class_id }),
                )
            },
            forall|n: u64|
                old(self).token_retired(n) ==> #[trigger] final(self).token_retired(n),
    {
        let token_owner: u64 = match self.nfts(class_id, nft_id) {
            Some(t) => t.owner,
            None => {
                return Err(Error::NftNotFound);
            },
        };
        if token_owner != caller {
            return Err(Error::NotOwner);
        }
        self.tokens.remove(&nft_id);
        self.events.push(Event::Burned { nft_id, class_id });
        Ok(())
    }

    /// Whether `from` can pay `amount` while retaining the minimum-existence
    /// balance.
    pub open spec fn can_withdraw(&self, from: u64, amount: u128) -> bool {
        self.spec_balance(from) >= amount + self.spec_min_balance()
    }

    /// How `create_offer` decides: the token must exist under the pair of
    /// ids, the caller must own it, and the price must be positive.
    pub open spec fn create_offer_outcome(
        pre: Ledger,
        caller: u64,
        class_id: u64,
        nft_id: u64,
        amount: u128,
    ) -> Result<(), Error> {
        if pre.spec_token(class_id, nft_id) is None {
            Err(Error::NftNotFound)
        } else if pre.spec_token(class_id, nft_id)->Some_0.owner != caller {
            Err(Error::NotOwner)
        } else if amount == 0 {
            Err(Error::AmountTooLow)
        } else {
            Ok(())
        }
    }

    /// Lists the token for sale at a fixed price. Only the token's owner may
    /// list it; a prior listing under the same key is overwritten.
    pub fn create_offer(&mut self, caller: u64, class_id: u64, nft_id: u64, amount: u128) -> (r:
        Result<(), Error>)
        requires
            old(self).wf(),
        ensures
            final(self).wf(),
            r == Ledger::create_offer_outcome(*old(self), caller, class_id, nft_id, amount),
            r is Err ==> Ledger::state_eq(*old(self), *final(self)),
            r is Ok ==> {
                &&& final(self).spec_offer(class_id, nft_id) == (Some(
                    Offer { nft_id, class_id, amount, owner: caller },
                ))
                &&& forall|c: u64|
                    c != class_id ==> #[trigger] final(self).spec_offer(c, nft_id) is None
                &&& forall|c: u64, n: u64|
                    n != nft_id ==> #[trigger] final(self).spec_offer(c, n) == old(
                        self,
                    ).spec_offer(c, n)
                &&& Ledger::same_classes(*old(self), *final(self))
                &&& Ledger::same_tokens(*old(self), *final(self))
                &&& Ledger::same_auctions(*old(self), *final(self))
                &&& Ledger::same_balances(*old(self), *final(self))
                &&& final(self).spec_events() == old(self).spec_events().push(
                    (Event::OfferCreated { class_id, nft_id, owner: caller, amount }),
                )
            },
            forall|n: u64|
                old(self).token_retired(n) ==> #[trigger] final(self).token_retired(n),
    {
        let token_owner: u64 = match self.nfts(class_id, nft_id) {
            Some(t) => t.owner,
            None => {
                return Err(Error::NftNotFound);
            },
        };
        if token_owner != caller {
            return Err(Error::NotOwner);
        }
        if amount == 0 {
            return Err(Error::AmountTooLow);
        }
        self.offers.insert(nft_id, Offer { nft_id, class_id, amount, owner: caller });
        self.events.push(Event::OfferCreated { class_id, nft_id, owner: caller, amount });
        Ok(())
    }

    /// How `buy_offer` decides: the offer, class and token must all exist,
    /// the offer must not be stale (its recorded seller still owns the
    /// token), the bid must reach the listed price, and the buyer must be
    /// able to pay the listed price while keeping the minimum-existence
    /// balance.
    pub open spec fn buy_offer_outcome(
        pre: Ledger,
        caller: u64,
        nft_id: u64,
        class_id: u64,
        amount: u128,
    ) -> Result<(), Error> {
        if pre.spec_offer(class_id, nft_id) is None {
            Err(Error::OfferNotFound)
        } else if pre.spec_class(class_id) is None {
            Err(Error::ClassNotFound)
        } else if pre.spec_token(class_id, nft_id) is None {
            Err(Error::NftNotFound)
        } else if pre.spec_offer(class_id, nft_id)->Some_0.owner != pre.spec_token(
            class_id,
            nft_id,
        )->Some_0.owner {
            Err(Error::NftBuyed)
        } else if amount < pre.spec_offer(class_id, nft_id)->Some_0.amount {
            Err(Error::AmountTooLow)
        } else if !pre.can_withdraw(caller, pre.spec_offer(class_id, nft_id)->Some_0.amount) {
            Err(Error::InsufficientFunds)
        } else {
            Ok(())
        }
    }

    /// Buys the listed token at its listed price. In one atomic step the
    /// listed price moves from the buyer to the seller, the token's owner
    /// becomes the buyer, and the listing is removed; on any rejection
    /// nothing changes.
    pub fn buy_offer(&mut self, caller: u64, nft_id: u64, class_id: u64, amount: u128) -> (r:
        Result<(), Error>)
        requires
            old(self).wf(),
        ensures
            final(self).wf(),
            r == Ledger::buy_offer_outcome(*old(self), caller, nft_id, class_id, amount),
            r is Err ==> Ledger::state_eq(*old(self), *final(self)),
            r is Ok ==> {
                let price = old(self).spec_offer(class_id, nft_id)->Some_0.amount;
                let seller = old(self).spec_offer(class_id, nft_id)->Some_0.owner;
                &&& (final(self).spec_token(class_id, nft_id) matches Some(t) && t.owner == caller
                    && t.class_id == class_id && t.name == old(self).spec_token(
                    class_id,
                    nft_id,
                )->Some_0.name && t.description == old(self).spec_token(
                    class_id,
                    nft_id,
                )->Some_0.description && t.url == old(self).spec_token(class_id, nft_id)->Some_0.url
                    && t.external_url == old(self).spec_token(
                    class_id,
                    nft_id,
                )->Some_0.external_url)
                &&& forall|c: u64|
                    c != class_id ==> #[trigger] final(self).spec_token(c, nft_id) is None
                &&& forall|c: u64, n: u64|
                    n != nft_id ==> #[trigger] final(self).spec_token(c, n) == old(
                        self,
                    ).spec_token(c, n)
                &&& final(self).spec_next_nft_id() == old(self).spec_next_nft_id()
                &&& forall|c: u64| #[trigger] final(self).spec_offer(c, nft_id) is None
                &&& forall|c: u64, n: u64|
                    n != nft_id ==> #[trigger] final(self).spec_offer(c, n) == old(
                        self,
                    ).spec_offer(c, n)
                &&& forall|x: u64|
                    #[trigger] final(self).spec_balance(x) as int == old(self).spec_balance(x) + (
                    if x == seller {
                        price as int
                    } else {
                        0
                    }) - (if x == caller {
                        price as int
                    } else {
                        0
                    })
                &&& final(self).spec_total() == old(self).spec_total()
                &&& final(self).spec_min_balance() == old(self).spec_min_balance()
                &&& Ledger::same_classes(*old(self), *final(self))
                &&& Ledger::same_auctions(*old(self), *final(self))
                &&& final(self).spec_events() == old(self).spec_events().push(
                    (Event::OfferBuyed { buyer: caller, sender: seller, amount: price, nft_id }),
                )
            },
            forall|n: u64|
                old(self).token_retired(n) ==> #[trigger] final(self).token_retired(n),
    {
        let offer: Offer = match self.offers(class_id, nft_id) {
            Some(o) => *o,
            None => {
                return Err(Error::OfferNotFound);
            },
        };
        if class_id >= self.next_class {
            return Err(Error::ClassNotFound);
        }
        let token_owner: u64 = match self.nfts(class_id, nft_id) {
            Some(t) => t.owner,
            None => {
                return Err(Error::NftNotFound);
            },
        };
        if offer.owner != token_owner {
            return Err(Error::NftBuyed);
        }
        if amount < offer.amount {
            return Err(Error::AmountTooLow);
        }
        match self.balances.transfer_currency(caller, token_owner, offer.amount) {
            Err(e) => {
                return Err(e);
            },
            Ok(_) => {},
        }
        let nft: Nft = match self.tokens.remove(&nft_id) {
            Some(n) => n,
            None => vstd::pervasive::unreached(),
        };
        self.tokens.insert(nft_id, Nft { owner: caller, ..nft });
        self.offers.remove(&nft_id);
        self.events.push(
            Event::OfferBuyed { buyer: caller, sender: token_owner, amount: offer.amount, nft_id },
        );
        Ok(())
    }

    /// How `cancel_offer` decides: the offer must exist under the pair of
    /// ids and the caller must be the seller who listed it.
    pub open spec fn cancel_offer_outcome(
        pre: Ledger,
        caller: u64,
        nft_id: u64,
        class_id: u64,
    ) -> Result<(), Error> {
        if pre.spec_offer(class_id, nft_id) is None {
            Err(Error::OfferNotFound)
        } else if pre.spec_offer(class_id, nft_id)->Some_0.owner != caller {
            Err(Error::NotOwner)
        } else {
            Ok(())
        }
    }

    /// Withdraws a fixed-price listing. Only the seller who listed it may
    /// cancel.
    pub fn cancel_offer(&mut self, caller: u64, nft_id: u64, class_id: u64) -> (r: Result<
        (),
        Error,
    >)
        requires
            old(self).wf(),
        ensures
            final(self).wf(),
            r == Ledger::cancel_offer_outcome(*old(self), caller, nft_id, class_id),
            r is Err ==> Ledger::state_eq(*old(self), *final(self)),
            r is Ok ==> {
                &&& forall|c: u64| #[trigger] final(self).spec_offer(c, nft_id) is None
                &&& forall|c: u64, n: u64|
                    n != nft_id ==> #[trigger] final(self).spec_offer(c, n) == old(
                        self,
                    ).spec_offer(c, n)
                &&& Ledger::same_classes(*old(self), *final(self))
                &&& Ledger::same_tokens(*old(self), *final(self))
                &&& Ledger::same_auctions(*old(self), *final(self))
                &&& Ledger::same_balances(*old(self), *final(self))
                &&& final(self).spec_events() == old(self).spec_events().push(
                    (Event::OfferCanceled { class_id, nft_id }),
                )
            },
            forall|n: u64|
                old(self).token_retired(n) ==> #[trigger] final(self).token_retired(n),
    {
        let offer_owner: u64 = match self.offers(class_id, nft_id) {
            Some(o) => o.owner,
            None => {
                return Err(Error::OfferNotFound);
            },
        };
        if offer_owner != caller {
            return Err(Error::NotOwner);
        }
        self.offers.remove(&nft_id);
        self.events.push(Event::OfferCanceled { class_id, nft_id });
        Ok(())
    }

    /// How `create_auction` decides: the class and token must exist, the
    /// caller must own the token, the reserve must be positive, the window
    /// must start no earlier than now and end after it starts.
    pub open spec fn create_auction_outcome(
        pre: Ledger,
        caller: u64,
        class_id: u64,
        nft_id: u64,
        amount: u128,
        start_time: u64,
        end_time: u64,
        now: u64,
    ) -> Result<(), Error> {
        if pre.spec_class(class_id) is None {
            Err(Error::ClassNotFound)
        } else if pre.spec_token(class_id, nft_id) is None {
            Err(Error::NftNotFound)
        } else if pre.spec_token(class_id, nft_id)->Some_0.owner != caller {
            Err(Error::NotOwner)
        } else if amount == 0 {
            Err(Error::AmountTooLow)
        } else if start_time < now {
            Err(Error::UnderTime)
        } else if end_time <= start_time {
            Err(Error::EndTimeUnderStartTime)
        } else {
            Ok(())
        }
    }

    /// Opens a timed auction for the token with reserve price `amount` and
    /// the window `[start_time, end_time)`. The seller starts as its own
    /// highest bidder (`spender == owner`), the no-bid sentinel, with
    /// `min_amount == 0`. `now` is the host's current time.
    pub fn create_auction(
        &mut self,
        caller: u64,
        class_id: u64,
        nft_id: u64,
        amount: u128,
        start_time: u64,
        end_time: u64,
        now: u64,
    ) -> (r: Result<(), Error>)
        requires
            old(self).wf(),
        ensures
            final(self).wf(),
            r == Ledger::create_auction_outcome(
                *old(self),
                caller,
                class_id,
                nft_id,
                amount,
                start_time,
                end_time,
                now,
            ),
            r is Err ==> Ledger::state_eq(*old(self), *final(self)),
            r is Ok ==> {
                &&& final(self).spec_auction(class_id, nft_id) == (Some(
                    Auction {
                        owner: caller,
                        nft_id,
                        spender: caller,
                        class_id,
                        min_amount: 0,
                        amount,
                        start_time,
                        end_time,
                    },
                ))
                &&& forall|c: u64|
                    c != class_id ==> #[trigger] final(self).spec_auction(c, nft_id) is None
                &&& forall|c: u64, n: u64|
                    n != nft_id ==> #[trigger] final(self).spec_auction(c, n) == old(
                        self,
                    ).spec_auction(c, n)
                &&& Ledger::same_classes(*old(self), *final(self))
                &&& Ledger::same_tokens(*old(self), *final(self))
                &&& Ledger::same_offers(*old(self), *final(self))
                &&& Ledger::same_balances(*old(self), *final(self))
                &&& final(self).spec_events() == old(self).spec_events().push(
                    (Event::AuctionCreated {
                        class_id,
                        nft_id,
                        owner: caller,
                        min_amount: 0,
                        amount,
                        start_time,
                        end_time,
                    }),
                )
            },
            forall|n: u64|
                old(self).token_retired(n) ==> #[trigger] final(self).token_retired(n),
    {
        if class_id >= self.next_class {
            return Err(Error::ClassNotFound);
        }
        let token_owner: u64 = match self.nfts(class_id, nft_id) {
            Some(t) => t.owner,
            None => {
                return Err(Error::NftNotFound);
            },
        };
        if token_owner != caller {
            return Err(Error::NotOwner);
        }
        if amount == 0 {
            return Err(Error::AmountTooLow);
        }
        if start_time < now {
            return Err(Error::UnderTime);
        }
        if end_time <= start_time {
            return Err(Error::EndTimeUnderStartTime);
        }
        let auction = Auction {
            owner: caller,
            nft_id,
            spender: caller,
            class_id,
            min_amount: 0,
            amount,
            start_time,
            end_time,
        };
        self.auctions.insert(nft_id, auction);
        self.events.push(
            Event::AuctionCreated {
                class_id,
                nft_id,
                owner: caller,
                min_amount: 0,
                amount,
                start_time,
                end_time,
            },
        );
        Ok(())
    }

    /// Whether settlement of a bid of `amount` on `auction` can be paid for:
    /// the bidder covers the full bid, and — when a previous bidder must be
    /// refunded — the seller's balance, after receiving the bid, covers the
    /// refund with the seller's minimum-existence balance kept.
    pub open spec fn bid_settle_ok(pre: Ledger, auction: Auction, caller: u64, amount: u128) -> bool {
        &&& pre.can_withdraw(caller, amount)
        &&& (auction.spender != auction.owner ==> pre.spec_balance(auction.owner) + amount
            - auction.min_amount >= pre.spec_min_balance())
    }

    /// How `bid` decides: class, token and auction must exist; the bid must
    /// fall inside the time window; the owner cannot bid; no fixed-price
    /// offer may be listed for the token; the bid must strictly exceed both
    /// the reserve and the current high bid; the auction must not be stale;
    /// and the settlement must be payable.
    pub open spec fn bid_outcome(
        pre: Ledger,
        caller: u64,
        nft_id: u64,
        class_id: u64,
        amount: u128,
        now: u64,
    ) -> Result<(), Error> {
        let token = pre.spec_token(class_id, nft_id)->Some_0;
        let auction = pre.spec_auction(class_id, nft_id)->Some_0;
        if pre.spec_class(class_id) is None {
            Err(Error::ClassNotFound)
        } else if pre.spec_token(class_id, nft_id) is None {
            Err(Error::NftNotFound)
        } else if pre.spec_auction(class_id, nft_id) is None {
            Err(Error::AuctionNotFound)
        } else if now < auction.start_time {
            Err(Error::TimeNotStarted)
        } else if now >= auction.end_time {
            Err(Error::TimeOut)
        } else if token.owner == caller {
            Err(Error::NotOwner)
        } else if pre.spec_offer(class_id, nft_id) is Some {
            Err(Error::OfferIsRun)
        } else if amount <= auction.amount || amount <= auction.min_amount {
            Err(Error::AmountTooLow)
        } else if token.owner != auction.owner {
            Err(Error::NftBuyed)
        } else if !Ledger::bid_settle_ok(pre, auction, caller, amount) {
            Err(Error::InsufficientFunds)
        } else {
            Ok(())
        }
    }

    /// Accepts a bid on an open auction. The bid must strictly exceed both
    /// the reserve and every previously accepted bid. In one atomic step the
    /// full bid moves from the bidder to the seller and the previously
    /// highest bidder, if any, is refunded exactly its outbid amount, so the
    /// seller's net receipts always equal the current high bid; the auction
    /// then records the caller as highest bidder. On any rejection nothing
    /// changes.
    pub fn bid(&mut self, caller: u64, nft_id: u64, class_id: u64, amount: u128, now: u64) -> (r:
        Result<(), Error>)
        requires
            old(self).wf(),
        ensures
            final(self).wf(),
            r == Ledger::bid_outcome(*old(self), caller, nft_id, class_id, amount, now),
            r is Err ==> Ledger::state_eq(*old(self), *final(self)),
            r is Ok ==> {
                let auction = old(self).spec_auction(class_id, nft_id)->Some_0;
                let refund = if auction.spender == auction.owner {
                    0
                } else {
                    auction.min_amount as int
                };
                &&& amount > auction.min_amount
                &&& amount > auction.amount
                &&& final(self).spec_auction(class_id, nft_id) == (Some(
                    Auction { spender: caller, min_amount: amount, ..auction },
                ))
                &&& forall|c: u64|
                    c != class_id ==> #[trigger] final(self).spec_auction(c, nft_id) is None
                &&& forall|c: u64, n: u64|
                    n != nft_id ==> #[trigger] final(self).spec_auction(c, n) == old(
                        self,
                    ).spec_auction(c, n)
                &&& forall|x: u64|
                    #[trigger] final(self).spec_balance(x) as int == old(self).spec_balance(x) - (
                    if x == caller {
                        amount as int
                    } else {
                        0
                    }) + (if x == auction.owner {
                        amount - refund
                    } else {
                        0
                    }) + (if x == auction.spender && x != auction.owner {
                        refund
                    } else {
                        0
                    })
                &&& final(self).spec_total() == old(self).spec_total()
                &&& final(self).spec_min_balance() == old(self).spec_min_balance()
                &&& Ledger::same_classes(*old(self), *final(self))
                &&& Ledger::same_tokens(*old(self), *final(self))
                &&& Ledger::same_offers(*old(self), *final(self))
                &&& final(self).spec_events() == old(self).spec_events().push(
                    (Event::NewUserAuctioner { nft_id, class_id, auctioner: caller, amount }),
                )
            },
            forall|n: u64|
                old(self).token_retired(n) ==> #[trigger] final(self).token_retired(n),
    {
        if class_id >= self.next_class {
            return Err(Error::ClassNotFound);
        }
        let token_owner: u64 = match self.nfts(class_id, nft_id) {
            Some(t) => t.owner,
            None => {
                return Err(Error::NftNotFound);
            },
        };
        let auction: Auction = match self.auctions(class_id, nft_id) {
            Some(a) => *a,
            None => {
                return Err(Error::AuctionNotFound);
            },
        };
        if now < auction.start_time {
            return Err(Error::TimeNotStarted);
        }
        if now >= auction.end_time {
            return Err(Error::TimeOut);
        }
        if token_owner == caller {
            return Err(Error::NotOwner);
        }
        match self.offers(class_id, nft_id) {
            Some(_) => {
                return Err(Error::OfferIsRun);
            },
            None => {},
        }
        if amount <= auction.amount || amount <= auction.min_amount {
            return Err(Error::AmountTooLow);
        }
        if token_owner != auction.owner {
            return Err(Error::NftBuyed);
        }
        if auction.spender == auction.owner {
            match self.balances.transfer_currency(caller, auction.owner, amount) {
                Err(e) => {
                    return Err(e);
                },
                Ok(_) => {},
            }
        } else {
            match self.balances.transfer_with_refund(
                caller,
                auction.owner,
                auction.spender,
                amount,
                auction.min_amount,
            ) {
                Err(e) => {
                    return Err(e);
                },
                Ok(_) => {},
            }
        }
        self.auctions.insert(nft_id, Auction { spender: caller, min_amount: amount, ..auction });
        self.events.push(Event::NewUserAuctioner { nft_id, class_id, auctioner: caller, amount });
        Ok(())
    }

    /// How `auction_finish` decides: class, token and auction must exist,
    /// only the seller may finish, the end time must have been reached, and
    /// at least one bid must have been accepted.
    pub open spec fn auction_finish_outcome(
        pre: Ledger,
        caller: u64,
        nft_id: u64,
        class_id: u64,
        now: u64,
    ) -> Result<(), Error> {
        let auction = pre.spec_auction(class_id, nft_id)->Some_0;
        if pre.spec_class(class_id) is None {
            Err(Error::ClassNotFound)
        } else if pre.spec_token(class_id, nft_id) is None {
            Err(Error::NftNotFound)
        } else if pre.spec_auction(class_id, nft_id) is None {
            Err(Error::AuctionNotFound)
        } else if caller != auction.owner {
            Err(Error::OnlyOwner)
        } else if now < auction.end_time {
            Err(Error::WaitWhenAuctionFinish)
        } else if auction.owner == auction.spender {
            Err(Error::NoBodyParticipatedWithThisAuction)
        } else {
            Ok(())
        }
    }

    /// Settles a finished auction: the token's owner becomes the highest
    /// bidder and the auction record is removed. The winning amount was
    /// already escrowed with the seller when the bid was accepted, so no
    /// currency moves here.
    pub fn auction_finish(&mut self, caller: u64, nft_id: u64, class_id: u64, now: u64) -> (r:
        Result<(), Error>)
        requires
            old(self).wf(),
        ensures
            final(self).wf(),
            r == Ledger::auction_finish_outcome(*old(self), caller, nft_id, class_id, now),
            r is Err ==> Ledger::state_eq(*old(self), *final(self)),
            r is Ok ==> {
                let auction = old(self).spec_auction(class_id, nft_id)->Some_0;
                &&& (final(self).spec_token(class_id, nft_id) matches Some(t) && t.owner
                    == auction.spender && t.class_id == class_id && t.name == old(self).spec_token(
                    class_id,
                    nft_id,
                )->Some_0.name && t.description == old(self).spec_token(
                    class_id,
                    nft_id,
                )->Some_0.description && t.url == old(self).spec_token(class_id, nft_id)->Some_0.url
                    && t.external_url == old(self).spec_token(
                    class_id,
                    nft_id,
                )->Some_0.external_url)
                &&& forall|c: u64|
                    c != class_id ==> #[trigger] final(self).spec_token(c, nft_id) is None
                &&& forall|c: u64, n: u64|
                    n != nft_id ==> #[trigger] final(self).spec_token(c, n) == old(
                        self,
                    ).spec_token(c, n)
                &&& final(self).spec_next_nft_id() == old(self).spec_next_nft_id()
                &&& forall|c: u64| #[trigger] final(self).spec_auction(c, nft_id) is None
                &&& forall|c: u64, n: u64|
                    n != nft_id ==> #[trigger] final(self).spec_auction(c, n) == old(
                        self,
                    ).spec_auction(c, n)
                &&& Ledger::same_classes(*old(self), *final(self))
                &&& Ledger::same_offers(*old(self), *final(self))
                &&& Ledger::same_balances(*old(self), *final(self))
                &&& final(self).spec_events() == old(self).spec_events().push(
                    (Event::AuctionFinished {
                        nft_id,
                        class_id,
                        spender: auction.spender,
                        amount: auction.min_amount,
                    }),
                )
            },
            forall|n: u64|
                old(self).token_retired(n) ==> #[trigger] final(self).token_retired(n),
    {
        if class_id >= self.next_class {
            return Err(Error::ClassNotFound);
        }
        match self.nfts(class_id, nft_id) {
            Some(_) => {},
            None => {
                return Err(Error::NftNotFound);
            },
        }
        let auction: Auction = match self.auctions(class_id, nft_id) {
            Some(a) => *a,
            None => {
                return Err(Error::AuctionNotFound);
            },
        };
        if caller != auction.owner {
            return Err(Error::OnlyOwner);
        }
        if now < auction.end_time {
            return Err(Error::WaitWhenAuctionFinish);
        }
        if auction.owner == auction.spender {
            return Err(Error::NoBodyParticipatedWithThisAuction);
        }
        let nft: Nft = match self.tokens.remove(&nft_id) {
            Some(n) => n,
            None => vstd::pervasive::unreached(),
        };
        self.tokens.insert(nft_id, Nft { owner: auction.spender, ..nft });
        self.auctions.remove(&nft_id);
        self.events.push(
            Event::AuctionFinished {
                nft_id,
                class_id,
                spender: auction.spender,
                amount: auction.min_amount,
            },
        );
        Ok(())
    }

    /// How `cancel_auction` decides: the auction must exist, only the seller
    /// may cancel, and cancelling is possible only while no bid has been
    /// accepted (`spender == owner`).
    pub open spec fn cancel_auction_outcome(
        pre: Ledger,
        caller: u64,
        nft_id: u64,
        class_id: u64,
    ) -> Result<(), Error> {
        let auction = pre.spec_auction(class_id, nft_id)->Some_0;
        if pre.spec_auction(class_id, nft_id) is None {
            Err(Error::AuctionNotFound)
        } else if auction.owner != caller {
            Err(Error::NotOwner)
        } else if auction.owner != auction.spender {
            Err(Error::CantCloseAuction)
        } else {
            Ok(())
        }
    }

    /// Withdraws an auction on which no bid has ever been accepted. Once a
    /// bid is in, the auction can only run to `auction_finish`.
    pub fn cancel_auction(&mut self, caller: u64, nft_id: u64, class_id: u64) -> (r: Result<
        (),
        Error,
    >)
        requires
            old(self).wf(),
        ensures
            final(self).wf(),
            r == Ledger::cancel_auction_outcome(*old(self), caller, nft_id, class_id),
            r is Err ==> Ledger::state_eq(*old(self), *final(self)),
            r is Ok ==> old(self).spec_auction(class_id, nft_id)->Some_0.spender == old(
                self,
            ).spec_auction(class_id, nft_id)->Some_0.owner,
            r is Ok ==> {
                &&& forall|c: u64| #[trigger] final(self).spec_auction(c, nft_id) is None
                &&& forall|c: u64, n: u64|
                    n != nft_id ==> #[trigger] final(self).spec_auction(c, n) == old(
                        self,
                    ).spec_auction(c, n)
                &&& Ledger::same_classes(*old(self), *final(self))
                &&& Ledger::same_tokens(*old(self), *final(self))
                &&& Ledger::same_offers(*old(self), *final(self))
                &&& Ledger::same_balances(*old(self), *final(self))
                &&& final(self).spec_events() == old(self).spec_events().push(
                    (Event::AuctionCanceled { class_id, nft_id }),
                )
            },
            forall|n: u64|
                old(self).token_retired(n) ==> #[trigger] final(self).token_retired(n),
    {
        let auction: Auction = match self.auctions(class_id, nft_id) {
            Some(a) => *a,
            None => {
                return Err(Error::AuctionNotFound);
            },
        };
        if auction.owner != caller {
            return Err(Error::NotOwner);
        }
        if auction.owner != auction.spender {
            return Err(Error::CantCloseAuction);
        }
        self.auctions.remove(&nft_id);
        self.events.push(Event::AuctionCanceled { class_id, nft_id });
        Ok(())
    }

    /// A token id names at most one token: whenever lookups under two class
    /// ids both find it, they found the same record in the same class, so
    /// exactly one owner is recorded for it in any state.
    pub proof fn lemma_owner_unique(l: Ledger, c1: u64, c2: u64, nft_id: u64)
        requires
            l.spec_token(c1, nft_id) is Some,
            l.spec_token(c2, nft_id) is Some,
        ensures
            c1 == c2,
            l.spec_token(c1, nft_id) == l.spec_token(c2, nft_id),
    {
    }

    /// A retired token id can never be read back: any token lookup under it,
    /// in any class, returns not-found. Together with every operation's
    /// guarantee that retired ids stay retired, a burned token is gone
    /// permanently.
    pub proof fn lemma_retired_token_not_found(l: Ledger, class_id: u64, nft_id: u64)
        requires
            l.token_retired(nft_id),
        ensures
            l.spec_token(class_id, nft_id) is None,
    {
    }
}

} // verus!
