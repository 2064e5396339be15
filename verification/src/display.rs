//! The model of the display-side collaborators this layer reads: the
//! timeline's bounds, label table and path, and the display hierarchy.
//!
//! The timeline itself is owned and mutated by the display subsystem; this
//! layer only reads bounds and labels and hands navigation commands back.

use vstd::prelude::*;

verus! {

/// One entry of the timeline's label table: a frame label and the one-based
/// frame number it names.
pub struct LabelEntry {
    pub name: String,
    pub frame: u16,
}

/// What this layer sees of a movie clip's timeline.
pub struct MovieClipInfo {
    /// The number of frames; frame numbers are one-based.
    pub total_frames: u16,
    /// The label table, exact-match, with pairwise distinct labels.
    pub labels: Vec<LabelEntry>,
    /// The clip's hierarchical path string.
    pub path: String,
}

/// What this layer sees of a display object: its place in the display
/// hierarchy, and, if it is a movie clip, its timeline.
pub struct DisplayInfo {
    /// The scripting handle of the display parent, if there is one.
    pub parent: Option<usize>,
    /// Present exactly when the display object carries timeline capability.
    pub movie_clip: Option<MovieClipInfo>,
}

pub open spec fn unique_labels(s: Seq<LabelEntry>) -> bool {
    forall|i: int, j: int| 0 <= i < j < s.len() ==> s[i].name@ != s[j].name@
}

/// The label table as a map from label to frame number.
pub open spec fn labels_map(s: Seq<LabelEntry>) -> Map<Seq<char>, u16>
    decreases s.len(),
{
    if s.len() == 0 {
        Map::empty()
    } else {
        labels_map(s.drop_last()).insert(s.last().name@, s.last().frame)
    }
}

impl MovieClipInfo {
    pub open spec fn wf(self) -> bool {
        unique_labels(self.labels@)
    }

    /// The timeline's label map.
    pub open spec fn label_map(self) -> Map<Seq<char>, u16> {
        labels_map(self.labels@)
    }
}

/// Well-formedness of what the display subsystem hands over: if the object
/// carries a timeline, its label table has distinct labels.
pub open spec fn display_wf(d: Option<DisplayInfo>) -> bool {
    match d {
        Some(di) => match di.movie_clip {
            Some(mc) => mc.wf(),
            None => true,
        },
        None => true,
    }
}

pub proof fn lemma_labels_map_contains(s: Seq<LabelEntry>, n: Seq<char>)
    ensures
        labels_map(s).contains_key(n) <==> exists|i: int| 0 <= i < s.len() && s[i].name@ == n,
    decreases s.len(),
{
    if s.len() > 0 {
        lemma_labels_map_contains(s.drop_last(), n);
        if s.last().name@ == n {
            assert(s[s.len() - 1].name@ == n);
        } else if labels_map(s).contains_key(n) {
            let i = choose|i: int| 0 <= i < s.drop_last().len() && s.drop_last()[i].name@ == n;
            assert(s[i].name@ == n);
        } else if exists|i: int| 0 <= i < s.len() && s[i].name@ == n {
            let i = choose|i: int| 0 <= i < s.len() && s[i].name@ == n;
            assert(s.drop_last()[i].name@ == n);
        }
    }
}

pub proof fn lemma_labels_map_index(s: Seq<LabelEntry>, i: int)
    requires
        unique_labels(s),
        0 <= i < s.len(),
    ensures
        labels_map(s).contains_key(s[i].name@),
        labels_map(s)[s[i].name@] == s[i].frame,
    decreases s.len(),
{
    lemma_labels_map_contains(s, s[i].name@);
    if i < s.len() - 1 {
        assert(s.drop_last()[i] == s[i]);
        lemma_labels_map_index(s.drop_last(), i);
    }
}

/// Exact-match lookup of a frame label, mirroring the timeline collaborator's
/// own label query.
pub fn frame_label_to_number(mc: &MovieClipInfo, label: &str) -> (r: Option<u16>)
    requires
        mc.wf(),
    ensures
        match r {
            Some(f) => mc.label_map().contains_key(label@) && mc.label_map()[label@] == f,
            None => !mc.label_map().contains_key(label@),
        },
{
    let n = mc.labels.len();
    let mut i: usize = 0;
    while i < n
        invariant
            mc.wf(),
            n == mc.labels.len(),
            0 <= i <= n,
            forall|j: int| 0 <= j < i ==> mc.labels@[j].name@ != label@,
        decreases n - i,
    {
        if crate::strings::str_eq(mc.labels[i].name.as_str(), label) {
            proof {
                lemma_labels_map_index(mc.labels@, i as int);
            }
            return Some(mc.labels[i].frame);
        }
        i += 1;
    }
    proof {
        lemma_labels_map_contains(mc.labels@, label@);
    }
    None
}

} // verus!
