use vstd::prelude::*;

use crate::text::copy_bytes;
use crate::text::find_byte;
use crate::text::bytes_eq;
use crate::text::lemma_find_byte_props;

verus! {

/// The byte that separates labels in the dotted text form of a name.
pub const LABEL_SEPARATOR: u8 = 46;

/// A fully-qualified domain name, as the sequence of its labels from the
/// most specific one down to the root: `home.example.org.` is held as the
/// labels `home`, `example`, `org`, and the root domain as no labels at
/// all. Every name is implicitly rooted, as every name a resolver sees is.
pub struct DomainName {
    labels: Vec<Vec<u8>>,
}

/// A label is non-empty and free of the separator byte.
pub open spec fn spec_wf_label(l: Seq<u8>) -> bool {
    &&& l.len() > 0
    &&& forall|i: int| 0 <= i < l.len() ==> l[i] != LABEL_SEPARATOR
}

/// Every label of a well-formed name is itself well-formed.
pub open spec fn spec_wf_domain(d: Seq<Seq<u8>>) -> bool {
    forall|i: int| 0 <= i < d.len() ==> spec_wf_label(#[trigger] d[i])
}

/// `anc` is a proper ancestor of `d`: a strictly shorter suffix of its
/// labels. The root (no labels) is an ancestor of every other name.
pub open spec fn spec_is_ancestor_of(anc: Seq<Seq<u8>>, d: Seq<Seq<u8>>) -> bool {
    &&& anc.len() < d.len()
    &&& anc =~= d.subrange(d.len() - anc.len(), d.len() as int)
}

/// The dotted text of the labels of `d` from position `i` on: each label
/// followed by one separator byte.
pub open spec fn spec_domain_text_from(d: Seq<Seq<u8>>, i: int) -> Seq<u8>
    decreases d.len() - i,
{
    if i < 0 || i >= d.len() {
        Seq::<u8>::empty()
    } else {
        d[i] + seq![LABEL_SEPARATOR] + spec_domain_text_from(d, i + 1)
    }
}

/// The dotted text form of a whole name; the root is the bare separator.
pub open spec fn spec_domain_text(d: Seq<Seq<u8>>) -> Seq<u8> {
    if d.len() == 0 {
        seq![LABEL_SEPARATOR]
    } else {
        spec_domain_text_from(d, 0)
    }
}

/// The texts that `DomainName::parse` accepts: the bare separator, or a
/// text that starts with a label, ends with the separator, and has no
/// empty label in between.
pub open spec fn spec_valid_domain_text(t: Seq<u8>) -> bool {
    if t.len() == 1 {
        t[0] == LABEL_SEPARATOR
    } else {
        &&& t.len() >= 2
        &&& t[0] != LABEL_SEPARATOR
        &&& t[t.len() - 1] == LABEL_SEPARATOR
        &&& forall|i: int|
            0 <= i < t.len() - 1 ==> !(#[trigger] t[i] == LABEL_SEPARATOR && t[i + 1]
                == LABEL_SEPARATOR)
    }
}

impl View for DomainName {
    type V = Seq<Seq<u8>>;

    closed spec fn view(&self) -> Seq<Seq<u8>> {
        self.labels.deep_view()
    }
}

impl DomainName {
    pub open spec fn wf(&self) -> bool {
        spec_wf_domain(self@)
    }

    /// The root domain, written `.` in text form.
    pub fn root() -> (r: DomainName)
        ensures
            r@ =~= Seq::<Seq<u8>>::empty(),
            r.wf(),
    {
        DomainName { labels: Vec::new() }
    }

    pub fn is_root(&self) -> (r: bool)
        ensures
            r == (self@.len() == 0),
    {
        self.labels.len() == 0
    }

    pub fn label_count(&self) -> (r: usize)
        ensures
            r == self@.len(),
    {
        self.labels.len()
    }

    /// The name one label up: `home.example.org.` gives `example.org.`.
    pub fn parent(&self) -> (r: DomainName)
        requires
            self@.len() > 0,
        ensures
            r@ =~= self@.drop_first(),
    {
        let mut labels: Vec<Vec<u8>> = Vec::new();
        let mut i: usize = 1;
        while i < self.labels.len()
            invariant
                1 <= i <= self.labels@.len(),
                self@.len() == self.labels@.len(),
                labels.deep_view() =~= self@.subrange(1, i as int),
            decreases self.labels@.len() - i,
        {
            let l = copy_bytes(self.labels[i].as_slice());
            let ghost prev = labels.deep_view();
            labels.push(l);
            proof {
                assert(self@[i as int] =~= self.labels@[i as int]@);
                assert(labels.deep_view() =~~= prev.push(self@[i as int]));
                assert(labels.deep_view() =~= self@.subrange(1, i + 1 as int));
            }
            i += 1;
        }
        let r = DomainName { labels };
        proof {
            assert(r@ =~= self@.drop_first());
        }
        r
    }

    /// True exactly when the two names have the same labels.
    pub fn same_name(&self, other: &DomainName) -> (r: bool)
        ensures
            r == (self@ == other@),
    {
        if self.labels.len() != other.labels.len() {
            proof {
                assert(self@.len() != other@.len());
            }
            return false;
        }
        let mut i: usize = 0;
        while i < self.labels.len()
            invariant
                self@.len() == other@.len(),
                self.labels@.len() == self@.len(),
                other.labels@.len() == other@.len(),
                i <= self@.len(),
                forall|j: int| 0 <= j < i ==> self@[j] == other@[j],
            decreases self@.len() - i,
        {
            if !bytes_eq(self.labels[i].as_slice(), other.labels[i].as_slice()) {
                proof {
                    assert(self@[i as int] =~= self.labels@[i as int]@);
                    assert(other@[i as int] =~= other.labels@[i as int]@);
                    assert(self@[i as int] != other@[i as int]);
                }
                return false;
            }
            i += 1;
        }
        proof {
            assert(self@ =~= other@);
        }
        true
    }

    /// A fresh copy of the same name.
    pub fn duplicate(&self) -> (r: DomainName)
        ensures
            r@ == self@,
    {
        let mut labels: Vec<Vec<u8>> = Vec::new();
        let mut i: usize = 0;
        while i < self.labels.len()
            invariant
                i <= self.labels@.len(),
                self@.len() == self.labels@.len(),
                labels.deep_view() =~= self@.subrange(0, i as int),
            decreases self.labels@.len() - i,
        {
            let l = copy_bytes(self.labels[i].as_slice());
            let ghost prev = labels.deep_view();
            labels.push(l);
            proof {
                assert(self@[i as int] =~= self.labels@[i as int]@);
                assert(labels.deep_view() =~~= prev.push(self@[i as int]));
                assert(labels.deep_view() =~= self@.subrange(0, i + 1 as int));
            }
            i += 1;
        }
        let r = DomainName { labels };
        proof {
            assert(r@ =~= self@);
        }
        r
    }

    /// Reads the dotted text form of a name. Returns the parsed name
    /// exactly when the text is such a form.
    pub fn parse(text: &[u8]) -> (r: Option<DomainName>)
        ensures
            match r {
                Some(d) => d.wf() && spec_domain_text(d@) == text@ && spec_valid_domain_text(
                    text@,
                ),
                None => !spec_valid_domain_text(text@),
            },
    {
        let n = text.len();
        if n == 0 {
            return None;
        }
        if n == 1 {
            if text[0] == LABEL_SEPARATOR {
                let d = DomainName::root();
                proof {
                    assert(spec_domain_text(d@) =~= text@);
                }
                return Some(d);
            } else {
                return None;
            }
        }
        if text[0] == LABEL_SEPARATOR {
            return None;
        }
        let mut labels: Vec<Vec<u8>> = Vec::new();
        let mut pos: usize = 0;
        while pos < n
            invariant
                pos <= n,
                n == text@.len(),
                n >= 2,
                text@[0] != LABEL_SEPARATOR,
                spec_wf_domain(labels.deep_view()),
                spec_domain_text_from(labels.deep_view(), 0) =~= text@.subrange(0, pos as int),
                labels.deep_view().len() > 0 <==> pos > 0,
                pos > 0 ==> text@[pos - 1] == LABEL_SEPARATOR,
                forall|i: int|
                    0 <= i < pos - 1 ==> !(#[trigger] text@[i] == LABEL_SEPARATOR && text@[i + 1]
                        == LABEL_SEPARATOR),
            decreases n - pos,
        {
            let dot = find_byte(text, LABEL_SEPARATOR, pos);
            proof {
                lemma_find_byte_props(text@, LABEL_SEPARATOR, pos as int);
            }
            if dot == pos {
                // an empty label: two separators in a row, or none at the start
                proof {
                    assert(pos > 0);
                    assert(text@[pos - 1] == LABEL_SEPARATOR && text@[pos as int]
                        == LABEL_SEPARATOR);
                    assert(!spec_valid_domain_text(text@));
                }
                return None;
            }
            if dot == n {
                // no separator until the end: the text does not end with one
                proof {
                    assert(text@[n - 1] != LABEL_SEPARATOR);
                    assert(!spec_valid_domain_text(text@));
                }
                return None;
            }
            let mut label: Vec<u8> = Vec::new();
            let mut i: usize = pos;
            while i < dot
                invariant
                    pos <= i <= dot,
                    dot <= text@.len(),
                    label@ =~= text@.subrange(pos as int, i as int),
                decreases dot - i,
            {
                label.push(text[i]);
                proof {
                    assert(label@ =~= text@.subrange(pos as int, i + 1 as int));
                }
                i += 1;
            }
            proof {
                assert(spec_wf_label(label@));
                lemma_labels_text_push(labels.deep_view(), label@);
                assert(spec_domain_text_from(labels.deep_view().push(label@), 0) =~= text@.subrange(
                    0,
                    dot + 1 as int,
                ));
                assert(labels.deep_view().push(label@) =~= labels.deep_view().push(label@));
            }
            let ghost old_labels = labels.deep_view();
            labels.push(label);
            proof {
                assert(labels.deep_view() =~~= old_labels.push(label@));
                assert(spec_wf_domain(labels.deep_view()));
            }
            pos = dot + 1;
        }
        let d = DomainName { labels };
        proof {
            assert(text@.subrange(0, n as int) =~= text@);
            assert(d@.len() > 0);
            assert(spec_domain_text(d@) == text@);
            assert(spec_valid_domain_text(text@));
        }
        Some(d)
    }

    /// The dotted text form of the name.
    pub fn to_text(&self) -> (r: Vec<u8>)
        ensures
            r@ == spec_domain_text(self@),
    {
        if self.labels.len() == 0 {
            let mut r: Vec<u8> = Vec::new();
            r.push(LABEL_SEPARATOR);
            proof {
                assert(r@ =~= spec_domain_text(self@));
            }
            return r;
        }
        let mut r: Vec<u8> = Vec::new();
        let mut i: usize = 0;
        while i < self.labels.len()
            invariant
                i <= self.labels@.len(),
                self@.len() == self.labels@.len(),
                self.labels@.len() > 0,
                r@ =~= spec_text_upto(self@, i as int),
            decreases self.labels@.len() - i,
        {
            let mut j: usize = 0;
            let label_len = self.labels[i].len();
            while j < label_len
                invariant
                    i < self.labels@.len(),
                    self@.len() == self.labels@.len(),
                    j <= self@[i as int].len(),
                    label_len == self@[i as int].len(),
                    r@ =~= spec_text_upto(self@, i as int) + self@[i as int].subrange(
                        0,
                        j as int,
                    ),
                decreases label_len - j,
            {
                r.push(self.labels[i][j]);
                proof {
                    assert(r@ =~= spec_text_upto(self@, i as int) + self@[i as int].subrange(
                        0,
                        j + 1 as int,
                    ));
                }
                j += 1;
            }
            r.push(LABEL_SEPARATOR);
            proof {
                assert(self@[i as int].subrange(0, self@[i as int].len() as int) =~= self@[
                    i as int
                ]);
                assert(r@ =~= spec_text_upto(self@, i + 1 as int));
            }
            i += 1;
        }
        proof {
            lemma_upto_is_text(self@, self@.len() as int);
            assert(spec_domain_text_from(self@, self@.len() as int) =~= Seq::<u8>::empty());
            assert(r@ + Seq::<u8>::empty() =~= r@);
            assert(r@ =~= spec_domain_text(self@));
        }
        r
    }
}

/// The dotted text of the labels of `d` before position `i`.
spec fn spec_text_upto(d: Seq<Seq<u8>>, i: int) -> Seq<u8>
    decreases i,
{
    if i <= 0 {
        Seq::<u8>::empty()
    } else {
        spec_text_upto(d, i - 1) + d[i - 1] + seq![LABEL_SEPARATOR]
    }
}

/// The text before a position and the text from it on make the whole text.
proof fn lemma_upto_is_text(d: Seq<Seq<u8>>, i: int)
    requires
        0 <= i <= d.len(),
    ensures
        spec_text_upto(d, i) + spec_domain_text_from(d, i) =~= spec_domain_text_from(d, 0),
    decreases i,
{
    if i > 0 {
        lemma_upto_is_text(d, i - 1);
        assert(spec_domain_text_from(d, i - 1) =~= d[i - 1] + seq![LABEL_SEPARATOR]
            + spec_domain_text_from(d, i));
    }
}

/// Appending a label extends the text by that label and one separator.
proof fn lemma_labels_text_push(d: Seq<Seq<u8>>, l: Seq<u8>)
    ensures
        spec_domain_text_from(d.push(l), 0) =~= spec_domain_text_from(d, 0) + l + seq![
            LABEL_SEPARATOR
        ],
{
    lemma_labels_text_push_from(d, l, 0);
}

proof fn lemma_labels_text_push_from(d: Seq<Seq<u8>>, l: Seq<u8>, i: int)
    requires
        0 <= i <= d.len(),
    ensures
        spec_domain_text_from(d.push(l), i) =~= spec_domain_text_from(d, i) + l + seq![
            LABEL_SEPARATOR
        ],
    decreases d.len() - i,
{
    if i == d.len() {
        assert(d.push(l)[i] == l);
        assert(spec_domain_text_from(d.push(l), i + 1) =~= Seq::<u8>::empty());
        assert(spec_domain_text_from(d, i) =~= Seq::<u8>::empty());
    } else {
        lemma_labels_text_push_from(d, l, i + 1);
        assert(d.push(l)[i] == d[i]);
    }
}

} // verus!
