//! The opaque-handle container and the parser lifecycle: handles are
//! address-sized tokens; each successful creation hands out one share of a
//! parser instance, instances are deduplicated by language, and an instance
//! is released exactly when its last share is destroyed.

use vstd::prelude::*;
use vstd::string::StringExecFns;
use vstd::utf8::{decode_utf8, valid_utf8};

use crate::errors::OntologyError;
use crate::errors::Status;
use crate::lang::Language;
use crate::text::decode_text;

verus! {

/// One parser instance, with the number of outstanding shares on it.
#[derive(Clone, Copy, PartialEq, Eq, Structural, Debug)]
pub struct ParserInstance {
    pub language: Language,
    pub shares: usize,
}

/// How many handle slots reference parser slot `p`.
pub open spec fn count_refs(handles: Seq<Option<usize>>, p: int) -> int
    decreases handles.len(),
{
    if handles.len() == 0 {
        0
    } else {
        count_refs(handles.drop_last(), p) + if handles.last() is Some && handles.last()->0
            == p {
            1int
        } else {
            0int
        }
    }
}

/// The handle container. A handle is an index into `handles`; a live slot
/// names the parser slot whose instance the handle shares.
pub struct ParserRegistry {
    parsers: Vec<Option<ParserInstance>>,
    handles: Vec<Option<usize>>,
}

impl ParserRegistry {
    pub closed spec fn spec_handles(&self) -> Seq<Option<usize>> {
        self.handles@
    }

    pub closed spec fn spec_parsers(&self) -> Seq<Option<ParserInstance>> {
        self.parsers@
    }

    /// A handle on which operations are permitted: created and not destroyed.
    pub open spec fn handle_live(&self, h: usize) -> bool {
        h < self.spec_handles().len() && self.spec_handles()[h as int] is Some
    }

    /// The parser slot a live handle shares.
    pub open spec fn handle_parser(&self, h: usize) -> int {
        self.spec_handles()[h as int]->0 as int
    }

    pub open spec fn parser_live(&self, p: int) -> bool {
        0 <= p < self.spec_parsers().len() && self.spec_parsers()[p] is Some
    }

    pub open spec fn parser_language(&self, p: int) -> Language {
        self.spec_parsers()[p]->0.language
    }

    /// Outstanding shares on a live parser slot.
    pub open spec fn parser_shares(&self, p: int) -> int {
        self.spec_parsers()[p]->0.shares as int
    }

    pub open spec fn handle_language(&self, h: usize) -> Language {
        self.parser_language(self.handle_parser(h))
    }

    /// The number of handle slots ever allocated; destruction never shrinks
    /// it, so every creation returns a token never handed out before.
    pub open spec fn handle_space(&self) -> int {
        self.spec_handles().len() as int
    }

    /// Well-formedness: live handles reference live parser slots; a live
    /// parser's share count is exactly the number of live handles on it and
    /// never zero; a freed parser slot has no handles left; and at most one
    /// live parser exists per language.
    pub open spec fn wf(&self) -> bool {
        &&& forall|h: int|
            0 <= h < self.spec_handles().len() && #[trigger] self.spec_handles()[h] is Some
                ==> self.parser_live(self.spec_handles()[h]->0 as int)
        &&& forall|p: int|
            0 <= p < self.spec_parsers().len() && #[trigger] self.spec_parsers()[p] is Some
                ==> self.spec_parsers()[p]->0.shares == count_refs(self.spec_handles(), p)
                && self.spec_parsers()[p]->0.shares >= 1
        &&& forall|p: int|
            0 <= p < self.spec_parsers().len() && #[trigger] self.spec_parsers()[p] is None
                ==> count_refs(self.spec_handles(), p) == 0
        &&& forall|p1: int, p2: int|
            #[trigger] self.parser_live(p1) && #[trigger] self.parser_live(p2)
                && self.parser_language(p1) == self.parser_language(p2) ==> p1 == p2
    }

    /// An empty registry: nothing created yet.
    pub fn new() -> (r: ParserRegistry)
        ensures
            r.wf(),
            r.handle_space() == 0,
            r.spec_parsers().len() == 0,
    {
        ParserRegistry { parsers: Vec::new(), handles: Vec::new() }
    }

    fn find_parser(&self, language: Language) -> (r: Option<usize>)
        requires
            self.wf(),
        ensures
            match r {
                Some(p) => self.parser_live(p as int) && self.parser_language(p as int)
                    == language,
                None => forall|p: int|
                    #[trigger] self.parser_live(p) ==> self.parser_language(p) != language,
            },
    {
        let n = self.parsers.len();
        let mut i: usize = 0;
        while i < n
            invariant
                n == self.spec_parsers().len(),
                i <= n,
                forall|p: int|
                    0 <= p < i && #[trigger] self.parser_live(p) ==> self.parser_language(p)
                        != language,
            decreases n - i,
        {
            match &self.parsers[i] {
                Some(inst) => {
                    if inst.language == language {
                        return Some(i);
                    }
                },
                None => {},
            }
            i = i + 1;
        }
        None
    }

    /// Creates a parser handle for a language code. Succeeds exactly when
    /// the code is well-formed text naming a supported language; on success
    /// the returned token is fresh, its parser carries the resolved
    /// language, and one share was added (a brand-new instance when no live
    /// parser had that language, the deduplicated instance otherwise).
    /// Failure leaves the registry untouched and produces no handle.
    pub fn create(&mut self, lang_code: &[u8]) -> (r: Result<usize, OntologyError>)
        requires
            old(self).wf(),
        ensures
            final(self).wf(),
            r is Ok <==> valid_utf8(lang_code@) && Language::spec_from_code(
                decode_utf8(lang_code@),
            ) is Some,
            match r {
                Ok(h) => {
                    let lang = Language::spec_from_code(decode_utf8(lang_code@))->0;
                    let p = final(self).handle_parser(h);
                    &&& h == old(self).handle_space()
                    &&& final(self).handle_space() == old(self).handle_space() + 1
                    &&& final(self).handle_live(h)
                    &&& final(self).handle_language(h) == lang
                    &&& forall|h2: int|
                        0 <= h2 < old(self).spec_handles().len()
                            ==> #[trigger] final(self).spec_handles()[h2] == old(self).spec_handles()[h2]
                    &&& forall|q: int|
                        0 <= q < old(self).spec_parsers().len() && q != p
                            ==> #[trigger] final(self).spec_parsers()[q] == old(self).spec_parsers()[q]
                    &&& if old(self).parser_live(p) {
                        old(self).parser_language(p) == lang && final(self).parser_shares(p) == old(
                            self,
                        ).parser_shares(p) + 1
                    } else {
                        p == old(self).spec_parsers().len() && final(self).parser_shares(p) == 1
                    }
                    &&& (forall|q: int|
                        old(self).parser_live(q) && old(self).parser_language(q) == lang ==> q
                            == p)
                },
                Err(e) => *final(self) == *old(self) && match e {
                    OntologyError::InvalidText(ctx) => !valid_utf8(lang_code@) && ctx@
                        == "language code"@,
                    OntologyError::UnknownLanguage(code) => valid_utf8(lang_code@)
                        && Language::spec_from_code(decode_utf8(lang_code@)) is None && code@
                        == decode_utf8(lang_code@),
                    OntologyError::UnknownEntityKind(_) => false,
                    OntologyError::UnderlyingExtractionFailure(_) => false,
                },
            },
    {
        let code = match decode_text(lang_code) {
            Some(s) => s,
            None => {
                return Err(OntologyError::InvalidText(String::from_str("language code")));
            },
        };
        let language = match Language::from_code(code) {
            Some(l) => l,
            None => {
                return Err(OntologyError::UnknownLanguage(String::from_str(code)));
            },
        };
        let h = self.handles.len();
        match self.find_parser(language) {
            Some(p) => {
                proof {
                    lemma_count_refs_le_len(self.spec_handles(), p as int);
                    assert(self.spec_parsers()[p as int] is Some);
                }
                self.handles.push(Some(p));
                let new_len = self.handles.len();
                proof {
                    lemma_count_refs_push(old(self).spec_handles(), Some(p), p as int);
                    lemma_frame_after_add(old(self).spec_handles(), p);
                    assert(self.spec_handles().len() == new_len);
                    assert(count_refs(old(self).spec_handles(), p as int) < new_len);
                }
                let shares = self.parsers[p].unwrap().shares;
                self.parsers[p] = Some(ParserInstance { language, shares: shares + 1 });
                proof {
                    lemma_wf_after_share_added(*old(self), *self, h, p, language);
                }
                Ok(h)
            },
            None => {
                let p = self.parsers.len();
                proof {
                    assert forall|h2: int|
                        0 <= h2 < self.spec_handles().len() && #[trigger] self.spec_handles()[h2] is Some implies 0
                        <= self.spec_handles()[h2]->0 < self.spec_parsers().len() by {
                        assert(self.parser_live(self.spec_handles()[h2]->0 as int));
                    }
                    lemma_count_refs_none(
                        self.spec_handles(),
                        p as int,
                        self.spec_parsers().len() as int,
                    );
                }
                self.handles.push(Some(p));
                self.parsers.push(Some(ParserInstance { language, shares: 1 }));
                proof {
                    lemma_count_refs_push(old(self).spec_handles(), Some(p), p as int);
                    lemma_frame_after_add(old(self).spec_handles(), p);
                    lemma_wf_after_new_parser(*old(self), *self, h, p, language);
                }
                Ok(h)
            },
        }
    }

    /// Destroys a live handle: the token dies, one share comes off its
    /// parser, and the parser instance itself is released exactly when this
    /// was the last share. Destruction always reports success. Calling this
    /// on a handle that is not live is a precondition violation, not a
    /// recoverable error.
    pub fn destroy(&mut self, h: usize) -> (r: Status)
        requires
            old(self).wf(),
            old(self).handle_live(h),
        ensures
            final(self).wf(),
            r is Success,
            !final(self).handle_live(h),
            final(self).handle_space() == old(self).handle_space(),
            forall|h2: int|
                0 <= h2 < old(self).spec_handles().len() && h2 != h
                    ==> #[trigger] final(self).spec_handles()[h2] == old(self).spec_handles()[h2],
            forall|q: int|
                0 <= q < old(self).spec_parsers().len() && q != old(self).handle_parser(h)
                    ==> #[trigger] final(self).spec_parsers()[q] == old(self).spec_parsers()[q],
            ({
                let p = old(self).handle_parser(h);
                if old(self).parser_shares(p) > 1 {
                    final(self).parser_live(p) && final(self).parser_language(p) == old(self).parser_language(p)
                        && final(self).parser_shares(p) == old(self).parser_shares(p) - 1
                } else {
                    !final(self).parser_live(p)
                }
            }),
    {
        let p = self.handles[h].unwrap();
        proof {
            assert(old(self).spec_handles()[h as int] is Some);
            assert(old(self).parser_live(p as int));
        }
        self.handles[h] = None;
        proof {
            lemma_count_refs_update(old(self).spec_handles(), h as int, None, p as int);
            lemma_frame_after_update(old(self).spec_handles(), h as int, p as int);
        }
        let shares = self.parsers[p].unwrap().shares;
        if shares > 1 {
            let language = self.parsers[p].unwrap().language;
            self.parsers[p] = Some(ParserInstance { language, shares: shares - 1 });
        } else {
            self.parsers[p] = None;
        }
        proof {
            lemma_wf_after_destroy(*old(self), *self, h, p);
        }
        Status::Success
    }

    /// Whether a handle token is live: created, and not yet destroyed.
    pub fn is_handle_live(&self, h: usize) -> (r: bool)
        ensures
            r == self.handle_live(h),
    {
        h < self.handles.len() && self.handles[h].is_some()
    }

    /// Reads the language a live handle's parser was configured for.
    pub fn language_of(&self, h: usize) -> (r: Language)
        requires
            self.wf(),
            self.handle_live(h),
        ensures
            r == self.handle_language(h),
    {
        let p = self.handles[h].unwrap();
        self.parsers[p].unwrap().language
    }

    /// Reads the number of outstanding shares on a live handle's parser.
    pub fn share_count(&self, h: usize) -> (r: usize)
        requires
            self.wf(),
            self.handle_live(h),
        ensures
            r == self.parser_shares(self.handle_parser(h)),
    {
        let p = self.handles[h].unwrap();
        self.parsers[p].unwrap().shares
    }

    /// Whether some live parser instance is configured for a language:
    /// observably false again once the last share for it was destroyed.
    pub fn has_parser_for(&self, language: Language) -> (r: bool)
        requires
            self.wf(),
        ensures
            r <==> exists|p: int|
                #[trigger] self.parser_live(p) && self.parser_language(p) == language,
    {
        match self.find_parser(language) {
            Some(p) => {
                proof {
                    assert(self.parser_live(p as int));
                }
                true
            },
            None => false,
        }
    }
}

proof fn lemma_count_refs_le_len(s: Seq<Option<usize>>, p: int)
    ensures
        0 <= count_refs(s, p) <= s.len(),
    decreases s.len(),
{
    if s.len() > 0 {
        lemma_count_refs_le_len(s.drop_last(), p);
    }
}

proof fn lemma_count_refs_push(s: Seq<Option<usize>>, v: Option<usize>, p: int)
    ensures
        count_refs(s.push(v), p) == count_refs(s, p) + if v is Some && v->0 == p {
            1int
        } else {
            0int
        },
{
    assert(s.push(v).drop_last() =~= s);
    assert(s.push(v).last() == v);
}

proof fn lemma_count_refs_update(s: Seq<Option<usize>>, i: int, v: Option<usize>, p: int)
    requires
        0 <= i < s.len(),
    ensures
        count_refs(s.update(i, v), p) == count_refs(s, p) - (
        if s[i] is Some && s[i]->0 == p {
            1int
        } else {
            0int
        }) + (
        if v is Some && v->0 == p {
            1int
        } else {
            0int
        }),
    decreases s.len(),
{
    if i == s.len() - 1 {
        assert(s.update(i, v).drop_last() =~= s.drop_last());
        assert(s.update(i, v).last() == v);
        assert(s.last() == s[i]);
    } else {
        assert(s.update(i, v).drop_last() =~= s.drop_last().update(i, v));
        lemma_count_refs_update(s.drop_last(), i, v, p);
        assert(s.update(i, v).last() == s.last());
    }
}

proof fn lemma_count_refs_none(s: Seq<Option<usize>>, p: int, bound: int)
    requires
        forall|h: int|
            0 <= h < s.len() && #[trigger] s[h] is Some ==> 0 <= s[h]->0 < bound,
        p >= bound,
    ensures
        count_refs(s, p) == 0,
    decreases s.len(),
{
    if s.len() > 0 {
        assert(forall|h: int|
            0 <= h < s.drop_last().len() && #[trigger] s.drop_last()[h] is Some ==> 0 <= s.drop_last()[h]->0
                < bound) by {
            assert(forall|h: int|
                0 <= h < s.len() - 1 ==> #[trigger] s.drop_last()[h] == s[h]);
        }
        lemma_count_refs_none(s.drop_last(), p, bound);
        assert(s.last() == s[s.len() - 1]);
    }
}

/// A slot some handle references has at least one reference.
proof fn lemma_count_refs_pos(s: Seq<Option<usize>>, i: int, p: int)
    requires
        0 <= i < s.len(),
        s[i] is Some && s[i]->0 == p,
    ensures
        count_refs(s, p) >= 1,
    decreases s.len(),
{
    lemma_count_refs_le_len(s.drop_last(), p);
    if i == s.len() - 1 {
        assert(s.last() == s[i]);
    } else {
        lemma_count_refs_pos(s.drop_last(), i, p);
    }
}

/// After a handle was appended pointing at `p`, every parser slot other than
/// `p` keeps its reference count.
proof fn lemma_frame_after_add(hs: Seq<Option<usize>>, p: usize)
    ensures
        forall|q: int|
            q != p ==> #[trigger] count_refs(hs.push(Some(p)), q) == count_refs(hs, q),
{
    assert forall|q: int| q != p implies #[trigger] count_refs(hs.push(Some(p)), q) == count_refs(
        hs,
        q,
    ) by {
        lemma_count_refs_push(hs, Some(p), q);
    }
}

/// Well-formedness survives adding one more handle on an existing live
/// parser whose share count was bumped by one.
proof fn lemma_wf_after_share_added(
    pre: ParserRegistry,
    post: ParserRegistry,
    h: usize,
    p: usize,
    language: Language,
)
    requires
        pre.wf(),
        pre.parser_live(p as int),
        pre.parser_language(p as int) == language,
        h == pre.spec_handles().len(),
        pre.parser_shares(p as int) + 1 <= usize::MAX,
        post.spec_handles() == pre.spec_handles().push(Some(p)),
        post.spec_parsers() == pre.spec_parsers().update(
            p as int,
            Some(
                ParserInstance {
                    language,
                    shares: (pre.parser_shares(p as int) + 1) as usize,
                },
            ),
        ),
    ensures
        post.wf(),
{
    lemma_count_refs_push(pre.spec_handles(), Some(p), p as int);
    lemma_frame_after_add(pre.spec_handles(), p);
    assert forall|h2: int|
        0 <= h2 < post.spec_handles().len() && #[trigger] post.spec_handles()[h2] is Some implies post.parser_live(
        post.spec_handles()[h2]->0 as int,
    ) by {
        if h2 < pre.spec_handles().len() {
            assert(post.spec_handles()[h2] == pre.spec_handles()[h2]);
            assert(pre.parser_live(pre.spec_handles()[h2]->0 as int));
        } else {
            assert(post.spec_handles()[h2] == Some(p));
        }
    }
    assert forall|q: int|
        0 <= q < post.spec_parsers().len() && #[trigger] post.spec_parsers()[q] is Some implies post.spec_parsers()[q]->0.shares
        == count_refs(post.spec_handles(), q) && post.spec_parsers()[q]->0.shares >= 1 by {
        if q != p {
            assert(post.spec_parsers()[q] == pre.spec_parsers()[q]);
        }
    }
    assert forall|q: int|
        0 <= q < post.spec_parsers().len() && #[trigger] post.spec_parsers()[q] is None implies count_refs(
        post.spec_handles(),
        q,
    ) == 0 by {
        assert(q != p);
        assert(post.spec_parsers()[q] == pre.spec_parsers()[q]);
    }
    assert forall|p1: int, p2: int|
        #[trigger] post.parser_live(p1) && #[trigger] post.parser_live(p2)
            && post.parser_language(p1) == post.parser_language(p2) implies p1 == p2 by {
        assert(pre.parser_live(p1) && pre.parser_live(p2));
        assert(post.parser_language(p1) == pre.parser_language(p1));
        assert(post.parser_language(p2) == pre.parser_language(p2));
    }
}

/// Well-formedness survives appending a brand-new parser instance with a
/// single share held by the freshly appended handle.
proof fn lemma_wf_after_new_parser(
    pre: ParserRegistry,
    post: ParserRegistry,
    h: usize,
    p: usize,
    language: Language,
)
    requires
        pre.wf(),
        h == pre.spec_handles().len(),
        p == pre.spec_parsers().len(),
        forall|q: int| #[trigger] pre.parser_live(q) ==> pre.parser_language(q) != language,
        post.spec_handles() == pre.spec_handles().push(Some(p)),
        post.spec_parsers() == pre.spec_parsers().push(
            Some(ParserInstance { language, shares: 1 }),
        ),
        count_refs(pre.spec_handles(), p as int) == 0,
    ensures
        post.wf(),
{
    lemma_count_refs_push(pre.spec_handles(), Some(p), p as int);
    lemma_frame_after_add(pre.spec_handles(), p);
    assert forall|h2: int|
        0 <= h2 < post.spec_handles().len() && #[trigger] post.spec_handles()[h2] is Some implies post.parser_live(
        post.spec_handles()[h2]->0 as int,
    ) by {
        if h2 < pre.spec_handles().len() {
            assert(post.spec_handles()[h2] == pre.spec_handles()[h2]);
            assert(pre.parser_live(pre.spec_handles()[h2]->0 as int));
            assert(post.spec_parsers()[pre.spec_handles()[h2]->0 as int] == pre.spec_parsers()[pre.spec_handles()[h2]->0 as int]);
        } else {
            assert(post.spec_handles()[h2] == Some(p));
        }
    }
    assert forall|q: int|
        0 <= q < post.spec_parsers().len() && #[trigger] post.spec_parsers()[q] is Some implies post.spec_parsers()[q]->0.shares
        == count_refs(post.spec_handles(), q) && post.spec_parsers()[q]->0.shares >= 1 by {
        if q != p {
            assert(post.spec_parsers()[q] == pre.spec_parsers()[q]);
        }
    }
    assert forall|q: int|
        0 <= q < post.spec_parsers().len() && #[trigger] post.spec_parsers()[q] is None implies count_refs(
        post.spec_handles(),
        q,
    ) == 0 by {
        assert(q != p);
        assert(post.spec_parsers()[q] == pre.spec_parsers()[q]);
    }
    assert forall|p1: int, p2: int|
        #[trigger] post.parser_live(p1) && #[trigger] post.parser_live(p2)
            && post.parser_language(p1) == post.parser_language(p2) implies p1 == p2 by {
        if p1 != p && p2 != p {
            assert(pre.parser_live(p1) && pre.parser_live(p2));
            assert(post.parser_language(p1) == pre.parser_language(p1));
            assert(post.parser_language(p2) == pre.parser_language(p2));
        } else if p1 == p && p2 != p {
            assert(pre.parser_live(p2));
            assert(post.parser_language(p2) == pre.parser_language(p2));
        } else if p1 != p && p2 == p {
            assert(pre.parser_live(p1));
            assert(post.parser_language(p1) == pre.parser_language(p1));
        }
    }
}

/// Well-formedness survives destroying the handle at `h`: its parser `p`
/// loses one share, and is freed exactly when that share was the last.
proof fn lemma_wf_after_destroy(pre: ParserRegistry, post: ParserRegistry, h: usize, p: usize)
    requires
        pre.wf(),
        pre.handle_live(h),
        pre.spec_handles()[h as int]->0 == p,
        post.spec_handles() == pre.spec_handles().update(h as int, None),
        pre.parser_shares(p as int) > 1 ==> post.spec_parsers() == pre.spec_parsers().update(
            p as int,
            Some(
                ParserInstance {
                    language: pre.parser_language(p as int),
                    shares: (pre.parser_shares(p as int) - 1) as usize,
                },
            ),
        ),
        pre.parser_shares(p as int) <= 1 ==> post.spec_parsers() == pre.spec_parsers().update(
            p as int,
            None,
        ),
    ensures
        post.wf(),
{
    lemma_count_refs_update(pre.spec_handles(), h as int, None, p as int);
    lemma_frame_after_update(pre.spec_handles(), h as int, p as int);
    assert(pre.parser_live(p as int));
    assert(pre.parser_shares(p as int) == count_refs(pre.spec_handles(), p as int));
    assert forall|h2: int|
        0 <= h2 < post.spec_handles().len() && #[trigger] post.spec_handles()[h2] is Some implies post.parser_live(
        post.spec_handles()[h2]->0 as int,
    ) by {
        assert(h2 != h);
        assert(post.spec_handles()[h2] == pre.spec_handles()[h2]);
        let q = pre.spec_handles()[h2]->0 as int;
        assert(pre.parser_live(q));
        if q == p as int {
            lemma_count_refs_pos(post.spec_handles(), h2, q);
            assert(count_refs(post.spec_handles(), p as int) == count_refs(
                pre.spec_handles(),
                p as int,
            ) - 1);
            assert(pre.parser_shares(p as int) > 1);
        }
    }
    assert forall|q: int|
        0 <= q < post.spec_parsers().len() && #[trigger] post.spec_parsers()[q] is Some implies post.spec_parsers()[q]->0.shares
        == count_refs(post.spec_handles(), q) && post.spec_parsers()[q]->0.shares >= 1 by {
        if q != p {
            assert(post.spec_parsers()[q] == pre.spec_parsers()[q]);
        }
    }
    assert forall|q: int|
        0 <= q < post.spec_parsers().len() && #[trigger] post.spec_parsers()[q] is None implies count_refs(
        post.spec_handles(),
        q,
    ) == 0 by {
        if q != p {
            assert(post.spec_parsers()[q] == pre.spec_parsers()[q]);
        }
    }
    assert forall|p1: int, p2: int|
        #[trigger] post.parser_live(p1) && #[trigger] post.parser_live(p2)
            && post.parser_language(p1) == post.parser_language(p2) implies p1 == p2 by {
        assert(pre.parser_live(p1) && pre.parser_live(p2));
        assert(post.parser_language(p1) == pre.parser_language(p1));
        assert(post.parser_language(p2) == pre.parser_language(p2));
    }
}

/// After the handle at `i` (which pointed at `p`) was cleared, every parser
/// slot other than `p` keeps its reference count.
proof fn lemma_frame_after_update(hs: Seq<Option<usize>>, i: int, p: int)
    requires
        0 <= i < hs.len(),
        hs[i] is Some && hs[i]->0 == p,
    ensures
        forall|q: int|
            q != p ==> #[trigger] count_refs(hs.update(i, None), q) == count_refs(hs, q),
{
    assert forall|q: int| q != p implies #[trigger] count_refs(hs.update(i, None), q)
        == count_refs(hs, q) by {
        lemma_count_refs_update(hs, i, None, q);
    }
}

} // verus!
