//! The download-token table: each token stands for one resolved path, to be
//! redeemed by whatever serves the bytes. Tokens are neither expired nor
//! revoked here.
use vstd::prelude::*;
use crate::error::Error;
use crate::path::{resolve, resolve_spec, segments_view};
use crate::text::str_eq;

verus! {

/// Tokens and the paths they stand for.
pub struct DownloadTokens {
    entries: Vec<(String, Vec<String>)>,
}

pub open spec fn entries_map(s: Seq<(String, Vec<String>)>) -> Map<Seq<char>, Seq<Seq<char>>>
    decreases s.len(),
{
    if s.len() == 0 {
        Map::empty()
    } else {
        entries_map(s.drop_last()).insert(s.last().0@, segments_view(s.last().1@))
    }
}

impl View for DownloadTokens {
    type V = Map<Seq<char>, Seq<Seq<char>>>;

    closed spec fn view(&self) -> Map<Seq<char>, Seq<Seq<char>>> {
        entries_map(self.entries@)
    }
}

proof fn lemma_entries_map_lookup(s: Seq<(String, Vec<String>)>, token: Seq<char>, i: int)
    requires
        0 <= i < s.len(),
        s[i].0@ == token,
        forall|j: int| i < j < s.len() ==> s[j].0@ != token,
    ensures
        entries_map(s).contains_key(token),
        entries_map(s)[token] == segments_view(s[i].1@),
    decreases s.len(),
{
    if i < s.len() - 1 {
        lemma_entries_map_lookup(s.drop_last(), token, i);
    }
}

proof fn lemma_entries_map_absent(s: Seq<(String, Vec<String>)>, token: Seq<char>)
    requires
        forall|j: int| 0 <= j < s.len() ==> s[j].0@ != token,
    ensures
        !entries_map(s).contains_key(token),
    decreases s.len(),
{
    if s.len() > 0 {
        lemma_entries_map_absent(s.drop_last(), token);
    }
}

impl DownloadTokens {
    /// An empty table.
    pub fn new() -> (r: DownloadTokens)
        ensures
            r@ == Map::<Seq<char>, Seq<Seq<char>>>::empty(),
    {
        DownloadTokens { entries: Vec::new() }
    }

    /// Maps `token` to `path`, replacing what it stood for before.
    pub fn insert(&mut self, token: String, path: Vec<String>)
        ensures
            final(self)@ == old(self)@.insert(token@, segments_view(path@)),
    {
        let ghost pre = self.entries@;
        self.entries.push((token, path));
        assert(self.entries@.drop_last() =~= pre);
    }

    /// The path that `token` stands for.
    pub fn get(&self, token: &str) -> (r: Option<&Vec<String>>)
        ensures
            match r {
                Some(p) => self@.contains_key(token@) && self@[token@] == segments_view(p@),
                None => !self@.contains_key(token@),
            },
    {
        let mut i: usize = self.entries.len();
        while i > 0
            invariant
                i <= self.entries@.len(),
                forall|j: int| i <= j < self.entries@.len() ==> self.entries@[j].0@ != token@,
            decreases i,
        {
            if str_eq(self.entries[i - 1].0.as_str(), token) {
                proof {
                    lemma_entries_map_lookup(self.entries@, token@, i - 1);
                }
                return Some(&self.entries[i - 1].1);
            }
            i = i - 1;
        }
        proof {
            lemma_entries_map_absent(self.entries@, token@);
        }
        None
    }
}

/// Mints the download `token` for `relative` below `root`: the token now
/// stands for the resolved path, and is returned.
pub fn download_instance_file(
    tokens: &mut DownloadTokens,
    root: &Vec<String>,
    relative: &str,
    token: String,
) -> (r: Result<String, Error>)
    ensures
        match r {
            Ok(t) => t@ == token@ && match resolve_spec(segments_view(root@), relative@) {
                Some(p) => final(tokens)@ == old(tokens)@.insert(token@, p),
                None => false,
            },
            Err(e) => resolve_spec(segments_view(root@), relative@) is None && final(tokens)@ == old(
                tokens,
            )@,
        },
{
    let path = resolve(root, relative)?;
    let t = token.clone();
    tokens.insert(token, path);
    Ok(t)
}

} // verus!
