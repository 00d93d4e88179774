//! Mailing a summary and telling which secrets are saved.

use vstd::prelude::*;

use crate::snippets::texts;
use crate::text::{chars_of, same_chars, string_of, trim, trimmed};

verus! {

/// Which secrets are saved, without their values: for each provider id,
/// whether it has an API key, and whether the SMTP password is saved.
pub struct SecretsStatus {
    pub providers: Vec<(String, bool)>,
    pub has_smtp_password: bool,
}

/// The provider ids with a saved-key flag after the entries, in order: a
/// later entry of the same id replaces the earlier one, and an entry with no
/// id is skipped.
pub open spec fn saved_keys(entries: Seq<(Option<String>, bool)>) -> Map<Seq<char>, bool>
    decreases entries.len(),
{
    if entries.len() == 0 {
        Map::empty()
    } else {
        let prev = saved_keys(entries.drop_last());
        match entries.last().0 {
            Some(id) => prev.insert(id@, entries.last().1),
            None => prev,
        }
    }
}

/// The pairs of a list as a map (a later pair of the same key wins).
pub open spec fn pairs_map(v: Seq<(String, bool)>) -> Map<Seq<char>, bool>
    decreases v.len(),
{
    if v.len() == 0 {
        Map::empty()
    } else {
        pairs_map(v.drop_last()).insert(v.last().0@, v.last().1)
    }
}

/// No key occurs twice.
pub open spec fn keys_unique(v: Seq<(String, bool)>) -> bool {
    forall|i: int, j: int| 0 <= i < j < v.len() ==> (#[trigger] v[i]).0@ != (#[trigger] v[j]).0@
}

proof fn lemma_pairs_map_set(v: Seq<(String, bool)>, k: int, p: (String, bool))
    requires
        keys_unique(v),
        0 <= k < v.len(),
        p.0@ == v[k].0@,
    ensures
        pairs_map(v.update(k, p)) == pairs_map(v).insert(p.0@, p.1),
    decreases v.len(),
{
    let w = v.update(k, p);
    if k == v.len() - 1 {
        assert(w.drop_last() =~= v.drop_last());
        assert(pairs_map(w) =~= pairs_map(v).insert(p.0@, p.1));
    } else {
        assert(w.drop_last() =~= v.drop_last().update(k, p));
        assert(keys_unique(v.drop_last()));
        lemma_pairs_map_set(v.drop_last(), k, p);
        assert(v.last().0@ != p.0@);
        assert(pairs_map(w) =~= pairs_map(v).insert(p.0@, p.1));
    }
}

/// Where a key sits in a list of pairs.
fn find_key(v: &Vec<(String, bool)>, id: &str) -> (r: Option<usize>)
    ensures
        match r {
            Some(k) => k < v@.len() && v@[k as int].0@ == id@,
            None => forall|j: int| 0 <= j < v@.len() ==> (#[trigger] v@[j]).0@ != id@,
        },
{
    let want = chars_of(id);
    let mut k: usize = 0;
    while k < v.len()
        invariant
            k <= v@.len(),
            want@ == id@,
            forall|j: int| 0 <= j < k ==> (#[trigger] v@[j]).0@ != id@,
        decreases v@.len() - k,
    {
        if same_chars(&chars_of(v[k].0.as_str()), &want) {
            return Some(k);
        }
        k += 1;
    }
    None
}

/// The status of the secrets: the provider entries (id, if the kind has
/// one, and whether its key is saved) and the SMTP password's flag.
pub fn secrets_status(entries: &Vec<(Option<String>, bool)>, has_smtp_password: bool) -> (r: SecretsStatus)
    ensures
        keys_unique(r.providers@),
        pairs_map(r.providers@) == saved_keys(entries@),
        r.has_smtp_password == has_smtp_password,
{
    let mut providers: Vec<(String, bool)> = Vec::new();
    let mut i: usize = 0;
    while i < entries.len()
        invariant
            i <= entries@.len(),
            keys_unique(providers@),
            pairs_map(providers@) == saved_keys(entries@.take(i as int)),
        decreases entries@.len() - i,
    {
        assert(entries@.take(i + 1).drop_last() =~= entries@.take(i as int));
        match &entries[i] {
            (Some(id), saved) => {
                let found = find_key(&providers, id.as_str());
                match found {
                    Some(k) => {
                        let key = providers[k].0.clone();
                        let ghost before = providers@;
                        providers.set(k, (key, *saved));
                        proof {
                            lemma_pairs_map_set(before, k as int, providers@[k as int]);
                            assert(providers@ =~= before.update(k as int, providers@[k as int]));
                            assert forall|a: int, b: int| 0 <= a < b < providers@.len() implies (
                            #[trigger] providers@[a]).0@ != (#[trigger] providers@[b]).0@ by {
                                assert(before[a].0@ != before[b].0@);
                            }
                        }
                    },
                    None => {
                        let ghost before = providers@;
                        providers.push((id.clone(), *saved));
                        proof {
                            assert(providers@.drop_last() =~= before);
                            assert forall|a: int, b: int| 0 <= a < b < providers@.len() implies (
                            #[trigger] providers@[a]).0@ != (#[trigger] providers@[b]).0@ by {
                                if b == providers@.len() - 1 {
                                    assert(before[a].0@ != id@);
                                } else {
                                    assert(before[a].0@ != before[b].0@);
                                }
                            }
                        }
                    },
                }
            },
            (None, _) => {},
        }
        i += 1;
    }
    assert(entries@.take(entries@.len() as int) =~= entries@);
    SecretsStatus { providers, has_smtp_password }
}

/// What sending a summary gave: the backend that sent it, its message and,
/// for a mail draft, the `mailto:` address to open.
pub struct SendMailResult {
    pub backend: String,
    pub message: String,
    pub mailto_url: Option<String>,
}

/// The recipients, trimmed, without the blank ones.
pub open spec fn cleaned(to: Seq<String>) -> Seq<Seq<char>>
    decreases to.len(),
{
    if to.len() == 0 {
        Seq::empty()
    } else {
        let t = trimmed(to.last()@);
        if t.len() == 0 {
            cleaned(to.drop_last())
        } else {
            cleaned(to.drop_last()).push(t)
        }
    }
}

/// The recipients, trimmed, without the blank ones, in order.
pub fn clean_recipients(to: &Vec<String>) -> (r: Vec<String>)
    ensures
        texts(r@) == cleaned(to@),
{
    let mut r: Vec<String> = Vec::new();
    let mut i: usize = 0;
    while i < to.len()
        invariant
            i <= to@.len(),
            texts(r@) == cleaned(to@.take(i as int)),
        decreases to@.len() - i,
    {
        assert(to@.take(i + 1).drop_last() =~= to@.take(i as int));
        let t = trim(&chars_of(to[i].as_str()));
        if t.len() > 0 {
            let ghost before = r@;
            r.push(string_of(&t));
            assert(texts(r@) =~= texts(before).push(t@));
        }
        i += 1;
    }
    assert(to@.take(to@.len() as int) =~= to@);
    r
}

/// Is the configured backend SMTP?
pub fn wants_smtp(backend: &str) -> (r: bool)
    ensures
        r == (backend@ == "smtp"@),
{
    same_chars(&chars_of(backend), &chars_of("smtp"))
}

/// The sender of an SMTP mail: the configured one, else the user name.
pub fn smtp_from(from: &str, username: &str) -> (r: String)
    ensures
        r@ == (if from@.len() == 0 {
            username@
        } else {
            from@
        }),
{
    if from.unicode_len() == 0 {
        String::from_str(username)
    } else {
        String::from_str(from)
    }
}

/// What a send reports: a mail draft (`mailto`) also gives its address,
/// which is the backend's message.
pub fn send_result(backend: &str, message: String) -> (r: SendMailResult)
    ensures
        r.backend@ == backend@,
        r.message@ == message@,
        backend@ == "mailto"@ ==> (r.mailto_url matches Some(u) && u@ == message@),
        backend@ != "mailto"@ ==> r.mailto_url is None,
{
    let mailto_url = if same_chars(&chars_of(backend), &chars_of("mailto")) {
        Some(message.clone())
    } else {
        None
    };
    SendMailResult { backend: String::from_str(backend), message, mailto_url }
}

} // verus!
