//! One piece of a release's body: user-authored prose or one of three
//! recognized generated segment kinds.
use vstd::prelude::*;

verus! {

/// How commits of a release are grouped in the details listing.
#[derive(Clone, Debug, PartialEq, Eq)]
pub enum Category {
    Issue(String),
    Uncategorized,
}

#[verifier::ext_equal]
pub ghost enum CategoryV {
    Issue(Seq<char>),
    Uncategorized,
}

impl View for Category {
    type V = CategoryV;

    open spec fn view(&self) -> CategoryV {
        match self {
            Category::Issue(s) => CategoryV::Issue(s@),
            Category::Uncategorized => CategoryV::Uncategorized,
        }
    }
}

impl Category {
    /// The text a renderer shows for this category.
    pub fn display_text(&self) -> (r: String)
        ensures
            (match self@ {
                CategoryV::Issue(s) => r@ == "#"@ + s,
                CategoryV::Uncategorized => r@ == "Uncategorized"@,
            }),
    {
        match self {
            Category::Issue(s) => {
                let mut out = String::new();
                out.append("#");
                out.append(s.as_str());
                out
            },
            Category::Uncategorized => String::from_str("Uncategorized"),
        }
    }
}

/// One commit of the release window, by stable identifier and message title.
#[derive(Clone, Debug, PartialEq, Eq)]
pub struct Message {
    pub title: String,
    /// The raw bytes of the commit's object id.
    pub id: Vec<u8>,
}

#[verifier::ext_equal]
pub ghost struct MessageV {
    pub title: Seq<char>,
    pub id: Seq<u8>,
}

impl View for Message {
    type V = MessageV;

    open spec fn view(&self) -> MessageV {
        MessageV { title: self.title@, id: self.id@ }
    }
}

/// The payload of a generated commit-details segment: commits grouped by
/// category, in rendering order.
#[derive(Clone, Debug, PartialEq, Eq)]
pub struct Details {
    pub commits_by_category: Vec<(Category, Vec<Message>)>,
}

#[verifier::ext_equal]
pub ghost struct DetailsV {
    pub commits_by_category: Seq<(CategoryV, Seq<MessageV>)>,
}

impl Details {
    /// The exact recognized title of a generated details section.
    pub const TITLE: &'static str = "Commit Details";

    pub const HTML_PREFIX: &'static str = "<details><summary>view details</summary>";

    pub const HTML_PREFIX_END: &'static str = "</details>";
}

impl View for Details {
    type V = DetailsV;

    open spec fn view(&self) -> DetailsV {
        DetailsV {
            commits_by_category: self.commits_by_category@.map_values(
                |p: (Category, Vec<Message>)| (p.0@, p.1@.map_values(|m: Message| m@)),
            ),
        }
    }
}

/// The payload of a generated commit-statistics segment. Durations are in
/// whole seconds.
#[derive(Clone, Debug, PartialEq, Eq)]
pub struct CommitStatistics {
    /// Amount of commits that contributed to the release.
    pub count: usize,
    /// The time span from first to last commit, if there is more than one.
    pub duration: Option<i64>,
    /// The issue numbers that were referenced in commit messages.
    pub unique_issues: Vec<Category>,
    /// The duration from the release before this one, if this is not the first.
    pub time_passed_since_last_release: Option<i64>,
}

#[verifier::ext_equal]
pub ghost struct CommitStatisticsV {
    pub count: usize,
    pub duration: Option<i64>,
    pub unique_issues: Seq<CategoryV>,
    pub time_passed_since_last_release: Option<i64>,
}

impl CommitStatistics {
    /// The exact recognized title of a generated statistics section.
    pub const TITLE: &'static str = "Commit Statistics";
}

impl View for CommitStatistics {
    type V = CommitStatisticsV;

    open spec fn view(&self) -> CommitStatisticsV {
        CommitStatisticsV {
            count: self.count,
            duration: self.duration,
            unique_issues: self.unique_issues@.map_values(|c: Category| c@),
            time_passed_since_last_release: self.time_passed_since_last_release,
        }
    }
}

/// The payload of a generated clippy-thanks segment.
#[derive(Clone, Copy, Debug, PartialEq, Eq, Structural)]
pub struct ThanksClippy {
    pub count: usize,
}

impl ThanksClippy {
    /// The exact recognized title of a generated clippy-thanks section.
    pub const TITLE: &'static str = "Thanks Clippy";
}

impl View for ThanksClippy {
    type V = ThanksClippy;

    open spec fn view(&self) -> ThanksClippy {
        *self
    }
}

/// Which generated segment kinds a generator is asked to produce.
#[derive(Clone, Copy, Debug, PartialEq, Eq, Structural)]
pub struct Selection {
    pub clippy: bool,
    pub commit_details: bool,
    pub commit_statistics: bool,
}

/// The state of a generated segment's payload: freshly produced, or merely
/// detected while parsing existing text (the stale body is discarded because
/// it is always regenerated, never re-parsed).
#[derive(Clone, Debug, PartialEq, Eq)]
pub enum Data<T> {
    Parsed,
    Generated(T),
}

#[verifier::ext_equal]
pub ghost enum DataV<T> {
    Parsed,
    Generated(T),
}

impl<T: View> View for Data<T> {
    type V = DataV<T::V>;

    open spec fn view(&self) -> DataV<T::V> {
        match self {
            Data::Parsed => DataV::Parsed,
            Data::Generated(t) => DataV::Generated(t@),
        }
    }
}

/// One piece of a release's body.
#[derive(Clone, Debug, PartialEq, Eq)]
pub enum Segment {
    /// Opaque human-authored or human-edited Markdown, preserved verbatim.
    User { markdown: Vec<u8> },
    Clippy(Data<ThanksClippy>),
    Statistics(Data<CommitStatistics>),
    Details(Data<Details>),
}

#[verifier::ext_equal]
pub ghost enum SegmentV {
    User { markdown: Seq<u8> },
    Clippy(DataV<ThanksClippy>),
    Statistics(DataV<CommitStatisticsV>),
    Details(DataV<DetailsV>),
}

impl View for Segment {
    type V = SegmentV;

    open spec fn view(&self) -> SegmentV {
        match self {
            Segment::User { markdown } => SegmentV::User { markdown: markdown@ },
            Segment::Clippy(d) => SegmentV::Clippy(d@),
            Segment::Statistics(d) => SegmentV::Statistics(d@),
            Segment::Details(d) => SegmentV::Details(d@),
        }
    }
}

/// The abstract value of a vector of segments.
pub open spec fn segs_view(v: Vec<Segment>) -> Seq<SegmentV> {
    v@.map_values(|s: Segment| s@)
}

/// The three generated, read-only segment kinds.
#[derive(Clone, Copy, Debug, PartialEq, Eq, Structural)]
pub enum SegmentKind {
    Clippy,
    Statistics,
    Details,
}

/// Whether a segment is generated content, never hand-authored.
pub open spec fn spec_is_read_only(s: SegmentV) -> bool {
    !(s is User)
}

/// Whether a segment is of the given generated kind.
pub open spec fn is_kind(s: SegmentV, k: SegmentKind) -> bool {
    match k {
        SegmentKind::Clippy => s is Clippy,
        SegmentKind::Statistics => s is Statistics,
        SegmentKind::Details => s is Details,
    }
}

impl Segment {
    /// Whether this segment is generated content, never hand-authored.
    pub fn is_read_only(&self) -> (r: bool)
        ensures
            r == spec_is_read_only(self@),
    {
        match self {
            Segment::User { .. } => false,
            _ => true,
        }
    }

    /// Whether this segment is of the given generated kind.
    pub fn has_kind(&self, k: SegmentKind) -> (r: bool)
        ensures
            r == is_kind(self@, k),
    {
        match (self, k) {
            (Segment::Clippy(_), SegmentKind::Clippy) => true,
            (Segment::Statistics(_), SegmentKind::Statistics) => true,
            (Segment::Details(_), SegmentKind::Details) => true,
            _ => false,
        }
    }
}

/// An owned copy of a byte vector.
pub fn dup_bytes(v: &Vec<u8>) -> (r: Vec<u8>)
    ensures
        r@ == v@,
{
    let mut r: Vec<u8> = Vec::new();
    let mut i: usize = 0;
    while i < v.len()
        invariant
            i <= v@.len(),
            r@ == v@.subrange(0, i as int),
        decreases v@.len() - i,
    {
        r.push(v[i]);
        proof {
            assert(r@ =~= v@.subrange(0, i as int + 1));
        }
        i += 1;
    }
    proof {
        assert(r@ =~= v@);
    }
    r
}

/// An owned copy of a category.
pub fn dup_category(c: &Category) -> (r: Category)
    ensures
        r@ == c@,
{
    match c {
        Category::Issue(s) => Category::Issue(s.clone()),
        Category::Uncategorized => Category::Uncategorized,
    }
}

/// An owned copy of a commit message entry.
pub fn dup_message(m: &Message) -> (r: Message)
    ensures
        r@ == m@,
{
    let r = Message { title: m.title.clone(), id: dup_bytes(&m.id) };
    proof {
        assert(r@ =~= m@);
    }
    r
}

/// An owned copy of a details payload.
pub fn dup_details(d: &Details) -> (r: Details)
    ensures
        r@ == d@,
{
    let mut out: Vec<(Category, Vec<Message>)> = Vec::new();
    let mut i: usize = 0;
    while i < d.commits_by_category.len()
        invariant
            i <= d.commits_by_category@.len(),
            out@.len() == i,
            forall|j: int|
                0 <= j < i ==> #[trigger] out@[j].0@ == d.commits_by_category@[j].0@
                    && out@[j].1@.map_values(|m: Message| m@) == d.commits_by_category@[j].1@
                    .map_values(|m: Message| m@),
        decreases d.commits_by_category@.len() - i,
    {
        let pair = &d.commits_by_category[i];
        let cat = dup_category(&pair.0);
        let mut msgs: Vec<Message> = Vec::new();
        let mut j: usize = 0;
        while j < pair.1.len()
            invariant
                j <= pair.1@.len(),
                msgs@.len() == j,
                forall|k: int| 0 <= k < j ==> #[trigger] msgs@[k]@ == pair.1@[k]@,
            decreases pair.1@.len() - j,
        {
            msgs.push(dup_message(&pair.1[j]));
            j += 1;
        }
        proof {
            assert(msgs@.map_values(|m: Message| m@) =~= pair.1@.map_values(|m: Message| m@));
        }
        out.push((cat, msgs));
        i += 1;
    }
    let r = Details { commits_by_category: out };
    proof {
        assert(r@.commits_by_category =~= d@.commits_by_category);
        assert(r@ =~= d@);
    }
    r
}

/// An owned copy of a statistics payload.
pub fn dup_statistics(s: &CommitStatistics) -> (r: CommitStatistics)
    ensures
        r@ == s@,
{
    let mut issues: Vec<Category> = Vec::new();
    let mut i: usize = 0;
    while i < s.unique_issues.len()
        invariant
            i <= s.unique_issues@.len(),
            issues@.len() == i,
            forall|j: int| 0 <= j < i ==> #[trigger] issues@[j]@ == s.unique_issues@[j]@,
        decreases s.unique_issues@.len() - i,
    {
        issues.push(dup_category(&s.unique_issues[i]));
        i += 1;
    }
    let r = CommitStatistics {
        count: s.count,
        duration: s.duration,
        unique_issues: issues,
        time_passed_since_last_release: s.time_passed_since_last_release,
    };
    proof {
        assert(r@.unique_issues =~= s@.unique_issues);
        assert(r@ =~= s@);
    }
    r
}

/// An owned copy of a segment.
pub fn dup_segment(s: &Segment) -> (r: Segment)
    ensures
        r@ == s@,
{
    let r = match s {
        Segment::User { markdown } => Segment::User { markdown: dup_bytes(markdown) },
        Segment::Clippy(Data::Parsed) => Segment::Clippy(Data::Parsed),
        Segment::Clippy(Data::Generated(t)) => Segment::Clippy(
            Data::Generated(ThanksClippy { count: t.count }),
        ),
        Segment::Statistics(Data::Parsed) => Segment::Statistics(Data::Parsed),
        Segment::Statistics(Data::Generated(st)) => Segment::Statistics(
            Data::Generated(dup_statistics(st)),
        ),
        Segment::Details(Data::Parsed) => Segment::Details(Data::Parsed),
        Segment::Details(Data::Generated(d)) => Segment::Details(Data::Generated(dup_details(d))),
    };
    proof {
        assert(r@ =~= s@);
    }
    r
}

} // verus!
