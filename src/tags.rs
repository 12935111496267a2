//! Listing the tags of a repository page by page, each page requested after
//! the last tag of the one before.
use vstd::prelude::*;
use crate::records::opt_view;
use crate::version::tags_view;

verus! {

/// Tags gathered so far, the cursor for the next page, and whether the
/// listing has ended.
pub struct PagerView {
    pub tags: Seq<Seq<char>>,
    pub last: Option<Seq<char>>,
    pub done: bool,
}

/// The tags of a page that are new: a first tag equal to the cursor repeats
/// the end of the page before and is dropped.
pub open spec fn fresh_tags(last: Option<Seq<char>>, page: Seq<Seq<char>>) -> Seq<Seq<char>> {
    if page.len() > 0 && last == Some(page[0]) {
        page.drop_first()
    } else {
        page
    }
}

/// The listing after one more page: it ends at an empty page, or at a page
/// whose last tag is the cursor it was requested with (a registry that
/// repeats its final page), and otherwise takes in the page's new tags and
/// moves the cursor to its last tag.
pub open spec fn after_page(s: PagerView, page: Seq<Seq<char>>) -> PagerView {
    if page.len() == 0 || Some(page.last()) == s.last {
        PagerView { tags: s.tags, last: s.last, done: true }
    } else {
        PagerView { tags: s.tags + fresh_tags(s.last, page), last: Some(page.last()), done: false }
    }
}

/// The state of a paginated tag listing.
pub struct TagPager {
    tags: Vec<String>,
    last: Option<String>,
    done: bool,
}

impl View for TagPager {
    type V = PagerView;

    closed spec fn view(&self) -> PagerView {
        PagerView { tags: tags_view(self.tags@), last: opt_view(self.last), done: self.done }
    }
}

impl TagPager {
    /// A listing that has not requested any page.
    pub fn new() -> (r: TagPager)
        ensures
            r@ == (PagerView { tags: Seq::empty(), last: None, done: false }),
    {
        let r = TagPager { tags: Vec::new(), last: None, done: false };
        assert(r@.tags =~= Seq::<Seq<char>>::empty());
        r
    }

    /// Whether the listing has ended.
    pub fn is_done(&self) -> (r: bool)
        ensures
            r == self@.done,
    {
        self.done
    }

    /// The cursor to request the next page with: the last tag seen.
    pub fn cursor(&self) -> (r: Option<String>)
        ensures
            opt_view(r) == self@.last,
    {
        match &self.last {
            Some(l) => Some(l.clone()),
            None => None,
        }
    }

    /// Takes in the page that the registry returned for the cursor.
    pub fn absorb(&mut self, page: Vec<String>)
        requires
            !old(self)@.done,
        ensures
            final(self)@ == after_page(old(self)@, tags_view(page@)),
    {
        let ghost pv = tags_view(page@);
        let ghost before = self@;
        let n = page.len();
        if n == 0 {
            assert(pv.len() == 0);
            self.done = true;
            assert(self@ == after_page(before, pv));
            return;
        }
        let repeated = match &self.last {
            Some(l) => *l == page[n - 1],
            None => false,
        };
        assert(pv.last() == page@[n - 1]@);
        assert(repeated <==> Some(pv.last()) == opt_view(self.last));
        if repeated {
            self.done = true;
            assert(self@ == after_page(before, pv));
            return;
        }
        let new_last = page[n - 1].clone();
        assert(new_last@ == pv.last());
        let start: usize = match &self.last {
            Some(l) => if *l == page[0] {
                1
            } else {
                0
            },
            None => 0,
        };
        assert(pv[0] == page@[0]@);
        let ghost fresh = page@.skip(start as int);
        assert(tags_view(fresh) =~= fresh_tags(before.last, pv));
        let ghost old_tags = self.tags@;
        let mut i: usize = start;
        while i < n
            invariant
                n == page@.len(),
                start <= i <= n,
                fresh == page@.skip(start as int),
                self.tags@ == old_tags + page@.subrange(start as int, i as int),
                !self.done,
                opt_view(self.last) == before.last,
            decreases n - i,
        {
            self.tags.push(page[i].clone());
            i = i + 1;
            assert(self.tags@ =~= old_tags + page@.subrange(start as int, i as int));
        }
        assert(page@.subrange(start as int, n as int) =~= fresh);
        self.last = Some(new_last);
        assert(tags_view(self.tags@) =~= tags_view(old_tags) + tags_view(fresh));
        assert(self@ == after_page(before, pv));
    }

    /// The tags in the order they were listed.
    pub fn into_tags(self) -> (r: Vec<String>)
        ensures
            tags_view(r@) == self@.tags,
    {
        self.tags
    }
}

/// A registry that answers the cursor with the page that set it, again and
/// again, ends the listing at that repeated page: after a page that was
/// taken in, the same page ends it.
pub proof fn lemma_repeated_page_ends_listing(s: PagerView, page: Seq<Seq<char>>)
    requires
        !after_page(s, page).done,
    ensures
        after_page(after_page(s, page), page).done,
        after_page(after_page(s, page), page).tags == after_page(s, page).tags,
{
}

} // verus!
