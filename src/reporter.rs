use std::collections::VecDeque;
use vstd::prelude::*;
use vstd::string::StringExecFns;

use crate::scanners::ScanResult;

verus! {

/// Description attached to every disclosure report.
pub const DESCRIPTION: &'static str = "Mystb.in secret scanning is invalidating these secrets. Use secret pastes to disable this.";

/// The decimal digit for `d`.
pub open spec fn digit_char(d: nat) -> char {
    if d == 0 {
        '0'
    } else if d == 1 {
        '1'
    } else if d == 2 {
        '2'
    } else if d == 3 {
        '3'
    } else if d == 4 {
        '4'
    } else if d == 5 {
        '5'
    } else if d == 6 {
        '6'
    } else if d == 7 {
        '7'
    } else if d == 8 {
        '8'
    } else {
        '9'
    }
}

/// Decimal notation of `n`, without leading zeros.
pub open spec fn decimal(n: nat) -> Seq<char>
    decreases n,
{
    if n < 10 {
        seq![digit_char(n)]
    } else {
        decimal(n / 10).push(digit_char(n % 10))
    }
}

/// Name of the report file that holds the secret at `index`.
pub open spec fn report_file_name(index: nat) -> Seq<char> {
    decimal(index) + ".txt"@
}

/// What a report lists for `pending`: one file per secret, in queue order,
/// named after its index.
pub open spec fn report_entries(pending: Seq<Seq<char>>) -> Seq<(Seq<char>, Seq<char>)> {
    Seq::new(pending.len(), |i: int| (report_file_name(i as nat), pending[i]))
}

/// The queue after a report of `sent` secrets: delivered, the first `sent`
/// entries leave; not delivered, nothing does.
pub open spec fn drained(queue: Seq<Seq<char>>, sent: int, delivered: bool) -> Seq<Seq<char>> {
    if delivered {
        queue.skip(sent)
    } else {
        queue
    }
}

/// The texts of the invalidated findings of `results`, in order.
pub open spec fn invalidated_texts(results: Seq<ScanResult>) -> Seq<Seq<char>>
    decreases results.len(),
{
    if results.len() == 0 {
        Seq::empty()
    } else {
        let prior = invalidated_texts(results.drop_last());
        if results.last().invalidated {
            prior.push(results.last().content@)
        } else {
            prior
        }
    }
}

fn digit_str(d: usize) -> (r: &'static str)
    requires
        d < 10,
    ensures
        r@ == seq![digit_char(d as nat)],
{
    if d == 0 {
        proof { reveal_strlit("0"); }
        "0"
    } else if d == 1 {
        proof { reveal_strlit("1"); }
        "1"
    } else if d == 2 {
        proof { reveal_strlit("2"); }
        "2"
    } else if d == 3 {
        proof { reveal_strlit("3"); }
        "3"
    } else if d == 4 {
        proof { reveal_strlit("4"); }
        "4"
    } else if d == 5 {
        proof { reveal_strlit("5"); }
        "5"
    } else if d == 6 {
        proof { reveal_strlit("6"); }
        "6"
    } else if d == 7 {
        proof { reveal_strlit("7"); }
        "7"
    } else if d == 8 {
        proof { reveal_strlit("8"); }
        "8"
    } else {
        proof { reveal_strlit("9"); }
        "9"
    }
}

/// Decimal notation of `n`.
pub fn decimal_string(n: usize) -> (r: String)
    ensures
        r@ == decimal(n as nat),
    decreases n,
{
    if n < 10 {
        String::from_str(digit_str(n))
    } else {
        let mut s = decimal_string(n / 10);
        s.append(digit_str(n % 10));
        s
    }
}

/// A file of a disclosure report.
pub struct CreateGistFile {
    pub content: String,
}

/// A disclosure report: public, with a fixed description, and files keyed by
/// name (no two files share a name).
pub struct CreateGist {
    public: bool,
    description: String,
    files: Vec<(String, CreateGistFile)>,
}

impl CreateGist {
    pub closed spec fn is_public(&self) -> bool {
        self.public
    }

    pub closed spec fn description_text(&self) -> Seq<char> {
        self.description@
    }

    pub fn public(&self) -> (r: bool)
        ensures
            r == self.is_public(),
    {
        self.public
    }

    pub fn description(&self) -> (r: &str)
        ensures
            r@ == self.description_text(),
    {
        self.description.as_str()
    }

    /// The files as (name, content) pairs, in the order they were added.
    pub closed spec fn entries(&self) -> Seq<(Seq<char>, Seq<char>)> {
        Seq::new(self.files@.len(), |i: int| (self.files@[i].0@, self.files@[i].1.content@))
    }

    /// File names are unique.
    pub open spec fn wf(&self) -> bool {
        forall|i: int, j: int|
            0 <= i < j < self.entries().len() ==> (#[trigger] self.entries()[i]).0
                != (#[trigger] self.entries()[j]).0
    }

    pub fn new() -> (r: Self)
        ensures
            r.wf(),
            r.is_public(),
            r.description_text() == DESCRIPTION@,
            r.entries() == Seq::<(Seq<char>, Seq<char>)>::empty(),
    {
        let r = CreateGist { public: true, description: String::from_str(DESCRIPTION), files: Vec::new() };
        assert(r.entries() =~= Seq::<(Seq<char>, Seq<char>)>::empty());
        r
    }

    pub fn len(&self) -> (r: usize)
        ensures
            r == self.entries().len(),
    {
        self.files.len()
    }

    /// Sets the content of the file `filename`, adding the file at the end
    /// when there is none of that name.
    pub fn add_file(&mut self, filename: String, content: &str)
        requires
            old(self).wf(),
        ensures
            final(self).wf(),
            final(self).is_public() == old(self).is_public(),
            final(self).description_text() == old(self).description_text(),
            (exists|i: int|
                0 <= i < old(self).entries().len() && (#[trigger] old(self).entries()[i]).0
                    == filename@) ==> exists|i: int|
                0 <= i < old(self).entries().len() && (#[trigger] old(self).entries()[i]).0
                    == filename@ && final(self).entries() == old(self).entries().update(
                    i,
                    (filename@, content@),
                ),
            (forall|i: int|
                0 <= i < old(self).entries().len() ==> (#[trigger] old(self).entries()[i]).0
                    != filename@) ==> final(self).entries() == old(self).entries().push(
                (filename@, content@),
            ),
    {
        let ghost before = self.entries();
        let mut i: usize = 0;
        while i < self.files.len()
            invariant
                before == old(self).entries(),
                self.entries() == before,
                self.wf(),
                self.is_public() == old(self).is_public(),
                self.description_text() == old(self).description_text(),
                i <= self.files@.len(),
                forall|k: int| 0 <= k < i ==> (#[trigger] before[k]).0 != filename@,
            decreases self.files@.len() - i,
        {
            if self.files[i].0 == filename {
                let file = CreateGistFile { content: String::from_str(content) };
                let ghost prior = self.files@;
                self.files.set(i, (filename, file));
                proof {
                    assert(self.entries() =~= before.update(i as int, (filename@, content@)));
                    assert(before[i as int].0 == filename@);
                    assert(0 <= i < before.len() && (#[trigger] before[i as int]).0 == filename@);
                    assert(self.wf()) by {
                        assert forall|a: int, b: int|
                            0 <= a < b < self.entries().len() implies (#[trigger] self.entries()[a]).0
                            != (#[trigger] self.entries()[b]).0 by {
                            assert(before[a].0 != before[b].0);
                        }
                    }
                }
                return;
            }
            assert(before[i as int].0 == self.files@[i as int].0@);
            i = i + 1;
        }
        let file = CreateGistFile { content: String::from_str(content) };
        self.files.push((filename, file));
        proof {
            assert(self.entries() =~= before.push((filename@, content@)));
            assert(self.wf()) by {
                assert forall|a: int, b: int|
                    0 <= a < b < self.entries().len() implies (#[trigger] self.entries()[a]).0
                    != (#[trigger] self.entries()[b]).0 by {
                    if b < before.len() {
                        assert(before[a].0 != before[b].0);
                    }
                }
            }
        }
    }

    /// The name and content of file `index`.
    pub fn file(&self, index: usize) -> (r: (&str, &str))
        requires
            index < self.entries().len(),
        ensures
            r.0@ == self.entries()[index as int].0,
            r.1@ == self.entries()[index as int].1,
    {
        (self.files[index].0.as_str(), self.files[index].1.content.as_str())
    }
}

/// Secrets waiting to be disclosed, in the order they were found, and the
/// credential under which reports are sent.
pub struct SecretReporter {
    queued: VecDeque<String>,
    github_token: String,
}

impl SecretReporter {
    /// The secrets waiting, oldest first.
    pub closed spec fn pending(&self) -> Seq<Seq<char>> {
        Seq::new(self.queued@.len(), |i: int| self.queued@[i]@)
    }

    /// Value of the authorization header of reports.
    pub closed spec fn authorization(&self) -> Seq<char> {
        self.github_token@
    }

    pub fn new(github_token: &str) -> (r: Self)
        ensures
            r.pending() == Seq::<Seq<char>>::empty(),
            r.authorization() == "Bearer "@ + github_token@,
    {
        let r = SecretReporter {
            queued: VecDeque::new(),
            github_token: String::from_str("Bearer ").concat(github_token),
        };
        assert(r.pending() =~= Seq::<Seq<char>>::empty());
        r
    }

    /// The value to send in the authorization header.
    pub fn authorization_header(&self) -> (r: &str)
        ensures
            r@ == self.authorization(),
    {
        self.github_token.as_str()
    }

    /// Number of secrets waiting.
    pub fn len(&self) -> (r: usize)
        ensures
            r == self.pending().len(),
    {
        self.queued.len()
    }

    /// The secret at `index` of the queue, oldest first.
    pub fn secret(&self, index: usize) -> (r: &str)
        requires
            index < self.pending().len(),
        ensures
            r@ == self.pending()[index as int],
    {
        self.queued[index].as_str()
    }

    /// Queues `item` behind the secrets already waiting.
    pub fn add(&mut self, item: &str)
        ensures
            final(self).pending() == old(self).pending().push(item@),
            final(self).authorization() == old(self).authorization(),
    {
        self.queued.push_back(String::from_str(item));
        assert(self.pending() =~= old(self).pending().push(item@));
    }

    /// Queues the text of every invalidated finding, in order.
    pub fn add_findings(&mut self, results: &Vec<ScanResult>)
        ensures
            final(self).pending() == old(self).pending() + invalidated_texts(results@),
            final(self).authorization() == old(self).authorization(),
    {
        let mut i: usize = 0;
        while i < results.len()
            invariant
                i <= results@.len(),
                self.pending() == old(self).pending() + invalidated_texts(results@.take(i as int)),
                self.authorization() == old(self).authorization(),
            decreases results@.len() - i,
        {
            assert(results@.take(i + 1).drop_last() =~= results@.take(i as int));
            if results[i].invalidated {
                self.add(results[i].content);
            }
            i = i + 1;
        }
        assert(results@.take(i as int) =~= results@);
    }

    /// The report for one tick: `None` when nothing waits, else one file per
    /// waiting secret, in queue order. The queue itself is left as it is.
    pub fn prepare_report(&self) -> (r: Option<CreateGist>)
        ensures
            r is None <==> self.pending().len() == 0,
            r matches Some(g) ==> {
                &&& g.wf()
                &&& g.is_public()
                &&& g.description_text() == DESCRIPTION@
                &&& g.entries() == report_entries(self.pending())
            },
    {
        if self.queued.len() == 0 {
            return None;
        }
        let mut data = CreateGist::new();
        let mut i: usize = 0;
        while i < self.queued.len()
            invariant
                i <= self.queued@.len(),
                data.wf(),
                data.is_public(),
                data.description_text() == DESCRIPTION@,
                data.entries() == report_entries(self.pending().take(i as int)),
            decreases self.queued@.len() - i,
        {
            let name = decimal_string(i).concat(".txt");
            proof {
                lemma_file_names_distinct(i as nat);
                assert forall|k: int| 0 <= k < data.entries().len() implies (#[trigger] data.entries()[k]).0 != name@ by {
                    assert(data.entries()[k].0 == report_file_name(k as nat));
                }
            }
            data.add_file(name, self.queued[i].as_str());
            assert(data.entries() =~= report_entries(self.pending().take(i + 1)));
            i = i + 1;
        }
        assert(self.pending().take(i as int) =~= self.pending());
        Some(data)
    }

    /// Ends a tick whose report listed `sent` secrets: when it was delivered
    /// the first `sent` waiting secrets leave the queue, else none does.
    /// With a single consumer the queue never holds fewer secrets than the
    /// last report listed.
    pub fn complete_report(&mut self, sent: usize, delivered: bool)
        requires
            sent <= old(self).pending().len(),
        ensures
            final(self).pending() == drained(old(self).pending(), sent as int, delivered),
            final(self).authorization() == old(self).authorization(),
    {
        if delivered {
            let rest = self.queued.split_off(sent);
            self.queued = rest;
            assert(self.pending() =~= drained(old(self).pending(), sent as int, delivered));
        }
    }
}

proof fn lemma_decimal_len(n: nat)
    ensures
        decimal(n).len() >= 1,
        n >= 10 ==> decimal(n).len() >= 2,
    decreases n,
{
    if n >= 10 {
        lemma_decimal_len(n / 10);
    }
}

proof fn lemma_digit_injective(a: nat, b: nat)
    requires
        a < 10,
        b < 10,
        digit_char(a) == digit_char(b),
    ensures
        a == b,
{
}

/// Different numbers have different decimal notations.
proof fn lemma_decimal_injective(a: nat, b: nat)
    requires
        decimal(a) == decimal(b),
    ensures
        a == b,
    decreases a,
{
    lemma_decimal_len(a);
    lemma_decimal_len(b);
    if a >= 10 && b >= 10 {
        assert(decimal(a).drop_last() == decimal(a / 10));
        assert(decimal(b).drop_last() == decimal(b / 10));
        assert(decimal(a).last() == digit_char(a % 10));
        assert(decimal(b).last() == digit_char(b % 10));
        lemma_decimal_injective(a / 10, b / 10);
        lemma_digit_injective(a % 10, b % 10);
        assert(a == (a / 10) * 10 + a % 10);
        assert(b == (b / 10) * 10 + b % 10);
    } else if a < 10 && b < 10 {
        assert(decimal(a) == seq![digit_char(a)]);
        assert(decimal(b) == seq![digit_char(b)]);
        assert(seq![digit_char(a)][0] == digit_char(a));
        assert(seq![digit_char(b)][0] == digit_char(b));
        assert(decimal(a)[0] == decimal(b)[0]);
        lemma_digit_injective(a, b);
    } else if a < 10 {
        assert(decimal(a).len() == 1);
    } else {
        assert(decimal(b).len() == 1);
    }
}

proof fn lemma_file_names_distinct(n: nat)
    ensures
        forall|k: nat| k < n ==> #[trigger] report_file_name(k) != report_file_name(n),
{
    assert forall|k: nat| k < n implies #[trigger] report_file_name(k) != report_file_name(n) by {
        if report_file_name(k) == report_file_name(n) {
            let dk = decimal(k);
            let dn = decimal(n);
            assert((dk + ".txt"@).len() == (dn + ".txt"@).len());
            assert(dk =~= (dk + ".txt"@).take(dk.len() as int));
            assert(dn =~= (dn + ".txt"@).take(dn.len() as int));
            lemma_decimal_injective(k, n);
        }
    }
}

/// A tick reports everything that waited when it began, in queue order;
/// delivered, it removes exactly those secrets and keeps the ones queued
/// while it ran; not delivered, it removes none.
pub proof fn lemma_tick_drains_snapshot(waiting: Seq<Seq<char>>, later: Seq<Seq<char>>)
    ensures
        report_entries(waiting).len() == waiting.len(),
        forall|i: int|
            0 <= i < waiting.len() ==> (#[trigger] report_entries(waiting)[i]).1 == waiting[i],
        drained(waiting + later, report_entries(waiting).len() as int, true) == later,
        drained(waiting + later, report_entries(waiting).len() as int, false) == waiting + later,
{
    assert((waiting + later).skip(waiting.len() as int) =~= later);
}

} // verus!
