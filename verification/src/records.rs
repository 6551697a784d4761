//! The persistent data model: folders, part descriptors, file records and
//! upload sessions, together with the pure operations that build and
//! reshape them.
//!
//! Sizes that the surrounding program shows with two decimals are held
//! here in hundredths of a mebibyte, so that every computation stays in
//! integers.

use vstd::prelude::*;

verus! {

/// A folder: a categorical grouping on backend A.
pub struct Folder {
    /// Millisecond timestamp that identifies the folder.
    pub id: i64,
    /// Display name.
    pub name: String,
    /// The backend-A container this folder maps to.
    pub discord_category_id: i64,
    /// Display string of the creation time.
    pub created_at: String,
}

impl Clone for Folder {
    fn clone(&self) -> (r: Self)
        ensures
            r == *self,
    {
        Folder {
            id: self.id,
            name: self.name.clone(),
            discord_category_id: self.discord_category_id,
            created_at: self.created_at.clone(),
        }
    }
}

/// The platform tag of a part stored on backend A.
pub open spec fn spec_platform_a() -> Seq<char> {
    seq!['d', 'i', 's', 'c', 'o', 'r', 'd']
}

/// The platform tag of a part stored on backend B.
pub open spec fn spec_platform_b() -> Seq<char> {
    seq!['t', 'e', 'l', 'e', 'g', 'r', 'a', 'm']
}

/// Where one stored part lives and how to find it again.
pub struct PartInfo {
    /// 1-based part number.
    pub part: u32,
    /// Which backend holds the part: the tag of backend A or of backend B.
    pub platform: String,
    /// The message that carries the part.
    pub message_id: i64,
    /// The per-file channel, present exactly on backend-A parts.
    pub channel_id: Option<String>,
    /// The stored document handle, present exactly on backend-B parts.
    pub file_id: Option<String>,
    /// A link to the carrying message, on backend-A parts.
    pub jump_url: Option<String>,
}

impl Clone for PartInfo {
    fn clone(&self) -> (r: Self)
        ensures
            r == *self,
    {
        PartInfo {
            part: self.part,
            platform: self.platform.clone(),
            message_id: self.message_id,
            channel_id: match &self.channel_id {
                Some(s) => Some(s.clone()),
                None => None,
            },
            file_id: match &self.file_id {
                Some(s) => Some(s.clone()),
                None => None,
            },
            jump_url: match &self.jump_url {
                Some(s) => Some(s.clone()),
                None => None,
            },
        }
    }
}

/// Build the descriptor of a part stored on backend A.
pub fn part_info_backend_a(part: u32, message_id: i64, channel_id: String, jump_url: String) -> (r:
    PartInfo)
    ensures
        r.part == part,
        r.platform@ == spec_platform_a(),
        r.message_id == message_id,
        r.channel_id == Some(channel_id),
        r.file_id is None,
        r.jump_url == Some(jump_url),
{
    let mut platform = String::new();
    crate::strutil::push_char(&mut platform, 'd');
    crate::strutil::push_char(&mut platform, 'i');
    crate::strutil::push_char(&mut platform, 's');
    crate::strutil::push_char(&mut platform, 'c');
    crate::strutil::push_char(&mut platform, 'o');
    crate::strutil::push_char(&mut platform, 'r');
    crate::strutil::push_char(&mut platform, 'd');
    proof {
        assert(platform@ =~= spec_platform_a());
    }
    PartInfo {
        part,
        platform,
        message_id,
        channel_id: Some(channel_id),
        file_id: None,
        jump_url: Some(jump_url),
    }
}

/// Build the descriptor of a part stored on backend B.
pub fn part_info_backend_b(part: u32, message_id: i64, file_id: String) -> (r: PartInfo)
    ensures
        r.part == part,
        r.platform@ == spec_platform_b(),
        r.message_id == message_id,
        r.channel_id is None,
        r.file_id == Some(file_id),
        r.jump_url is None,
{
    let mut platform = String::new();
    crate::strutil::push_char(&mut platform, 't');
    crate::strutil::push_char(&mut platform, 'e');
    crate::strutil::push_char(&mut platform, 'l');
    crate::strutil::push_char(&mut platform, 'e');
    crate::strutil::push_char(&mut platform, 'g');
    crate::strutil::push_char(&mut platform, 'r');
    crate::strutil::push_char(&mut platform, 'a');
    crate::strutil::push_char(&mut platform, 'm');
    proof {
        assert(platform@ =~= spec_platform_b());
    }
    PartInfo {
        part,
        platform,
        message_id,
        channel_id: None,
        file_id: Some(file_id),
        jump_url: None,
    }
}

/// One stored file: where its parts live and how it is shown.
pub struct FileRecord {
    /// Millisecond timestamp that identifies the record.
    pub id: i64,
    /// Display filename.
    pub filename: String,
    /// File size in hundredths of a mebibyte (two decimals).
    pub size_mb_100: u64,
    /// The per-file channel on backend A.
    pub channel_id: String,
    /// That channel's name.
    pub channel_name: String,
    /// The folder this record sits in, if any.
    pub folder_id: Option<String>,
    /// The folder's display name, if any.
    pub folder_name: Option<String>,
    /// Record status; always the sent tag once written.
    pub status: String,
    /// Human label of the upload method.
    pub method: String,
    /// Machine key of the upload method.
    pub method_key: String,
    /// How many parts the file was split into.
    pub parts: u32,
    /// The parts, ordered by part number.
    pub parts_info: Vec<PartInfo>,
    /// Flat list of carrying message ids, kept for older records that
    /// predate `parts_info`.
    pub message_ids: Vec<i64>,
    /// Link to the first part's message, if any.
    pub jump_url: Option<String>,
    /// Display string of the completion time.
    pub sent_at: String,
}

/// The normalized parts list of a record: `parts_info` itself when it is
/// present, else one backend-A part per legacy message id, numbered in
/// order and pointing at the record's own channel.
pub fn normalize_parts(record: &FileRecord) -> (r: Vec<PartInfo>)
    requires
        record.message_ids@.len() < u32::MAX,
    ensures
        record.parts_info@.len() > 0 ==> r@ == record.parts_info@,
        record.parts_info@.len() == 0 ==> {
            &&& r@.len() == record.message_ids@.len()
            &&& forall|i: int|
                0 <= i < r@.len() ==> {
                    let p = #[trigger] r@[i];
                    &&& p.part == i + 1
                    &&& p.platform@ == spec_platform_a()
                    &&& p.message_id == record.message_ids@[i]
                    &&& p.channel_id == Some(record.channel_id)
                    &&& p.file_id is None
                    &&& p.jump_url is None
                }
        },
{
    if record.parts_info.len() > 0 {
        let r = record.parts_info.clone();
        proof {
            assert(r@ =~= record.parts_info@);
        }
        return r;
    }
    let mut r: Vec<PartInfo> = Vec::new();
    let n = record.message_ids.len();
    let mut i: usize = 0;
    while i < n
        invariant
            i <= n,
            n == record.message_ids@.len(),
            n < u32::MAX,
            r@.len() == i,
            forall|j: int|
                0 <= j < i ==> {
                    let p = #[trigger] r@[j];
                    &&& p.part == j + 1
                    &&& p.platform@ == spec_platform_a()
                    &&& p.message_id == record.message_ids@[j]
                    &&& p.channel_id == Some(record.channel_id)
                    &&& p.file_id is None
                    &&& p.jump_url is None
                },
        decreases n - i,
    {
        let mut p = part_info_backend_a(
            (i as u32) + 1,
            record.message_ids[i],
            record.channel_id.clone(),
            String::new(),
        );
        p.jump_url = None;
        r.push(p);
        i = i + 1;
    }
    r
}

/// Sort parts by part number, keeping exactly the same parts.
pub fn sort_parts(parts: Vec<PartInfo>) -> (r: Vec<PartInfo>)
    ensures
        r@.len() == parts@.len(),
        forall|i: int, j: int|
            0 <= i < j < r@.len() ==> (#[trigger] r@[i]).part <= (#[trigger] r@[j]).part,
        r@.to_multiset() == parts@.to_multiset(),
{
    let mut src = parts;
    let mut out: Vec<PartInfo> = Vec::new();
    proof {
        broadcast use vstd::seq_lib::group_to_multiset_ensures;
        broadcast use vstd::multiset::group_multiset_axioms;

        assert(out@.to_multiset().add(src@.to_multiset()) =~= parts@.to_multiset());
    }
    while src.len() > 0
        invariant
            out@.to_multiset().add(src@.to_multiset()) == parts@.to_multiset(),
            out@.len() + src@.len() == parts@.len(),
            forall|i: int, j: int|
                0 <= i < j < out@.len() ==> (#[trigger] out@[i]).part <= (#[trigger] out@[j]).part,
            forall|i: int, j: int|
                0 <= i < out@.len() && 0 <= j < src@.len() ==> (#[trigger] out@[i]).part <= (
                #[trigger] src@[j]).part,
        decreases src@.len(),
    {
        let mut min_idx: usize = 0;
        let mut k: usize = 1;
        while k < src.len()
            invariant
                min_idx < src@.len(),
                k <= src@.len(),
                forall|j: int| 0 <= j < k ==> src@[min_idx as int].part <= (#[trigger] src@[j]).part,
            decreases src@.len() - k,
        {
            if src[k].part < src[min_idx].part {
                min_idx = k;
            }
            k = k + 1;
        }
        let ghost src_before = src@;
        let ghost out_before = out@;
        let elem = src.remove(min_idx);
        out.push(elem);
        proof {
            broadcast use vstd::seq_lib::group_to_multiset_ensures;
            broadcast use vstd::multiset::group_multiset_axioms;

            assert(src_before.contains(elem));
            assert(src@.to_multiset() =~= src_before.to_multiset().remove(elem));
            assert(out@.to_multiset() =~= out_before.to_multiset().insert(elem));
            assert(out@.to_multiset().add(src@.to_multiset()) =~= out_before.to_multiset().add(
                src_before.to_multiset(),
            ));
            assert forall|j: int| 0 <= j < src@.len() implies elem.part <= (
            #[trigger] src@[j]).part by {
                if j < min_idx {
                    assert(src@[j] == src_before[j]);
                } else {
                    assert(src@[j] == src_before[j + 1]);
                }
            }
        }
    }
    out
}

/// In a list that is sorted by strictly increasing part numbers drawn
/// from `1 ..= len`, slot `i` can only hold part `i + 1`: lower bound.
proof fn lemma_strict_sorted_lower(s: Seq<PartInfo>, i: int)
    requires
        forall|a: int, b: int|
            0 <= a < b < s.len() ==> (#[trigger] s[a]).part < (#[trigger] s[b]).part,
        forall|a: int| 0 <= a < s.len() ==> (#[trigger] s[a]).part >= 1,
        0 <= i < s.len(),
    ensures
        s[i].part >= i + 1,
    decreases i,
{
    if i > 0 {
        lemma_strict_sorted_lower(s, i - 1);
        assert(s[i - 1].part < s[i].part);
    }
}

/// In a list that is sorted by strictly increasing part numbers drawn
/// from `1 ..= len`, slot `i` can only hold part `i + 1`: upper bound.
proof fn lemma_strict_sorted_upper(s: Seq<PartInfo>, i: int)
    requires
        forall|a: int, b: int|
            0 <= a < b < s.len() ==> (#[trigger] s[a]).part < (#[trigger] s[b]).part,
        forall|a: int| 0 <= a < s.len() ==> (#[trigger] s[a]).part <= s.len(),
        0 <= i < s.len(),
    ensures
        s[i].part <= i + 1,
    decreases s.len() - i,
{
    if i < s.len() - 1 {
        lemma_strict_sorted_upper(s, i + 1);
        assert(s[i].part < s[i + 1].part);
    }
}

/// After sorting, a list whose part numbers were the numbers `1 ..= len`,
/// each once, carries part `i + 1` in slot `i`.
pub proof fn lemma_sorted_parts_canonical(s: Seq<PartInfo>)
    requires
        forall|a: int, b: int|
            0 <= a < b < s.len() ==> (#[trigger] s[a]).part < (#[trigger] s[b]).part,
        forall|a: int| 0 <= a < s.len() ==> 1 <= (#[trigger] s[a]).part <= s.len(),
    ensures
        forall|i: int| 0 <= i < s.len() ==> (#[trigger] s[i]).part == i + 1,
{
    assert forall|i: int| 0 <= i < s.len() implies (#[trigger] s[i]).part == i + 1 by {
        lemma_strict_sorted_lower(s, i);
        lemma_strict_sorted_upper(s, i);
    }
}

/// Whether every part number `1 ..= len` appears exactly once in `s`.
pub open spec fn parts_numbered_once(s: Seq<PartInfo>) -> bool {
    &&& forall|a: int, b: int|
        0 <= a < b < s.len() ==> (#[trigger] s[a]).part != (#[trigger] s[b]).part
    &&& forall|a: int| 0 <= a < s.len() ==> 1 <= (#[trigger] s[a]).part <= s.len()
}

/// The machine key of an upload method.
pub open spec fn spec_method_key(m: crate::sender::UploadMethod) -> Seq<char> {
    match m {
        crate::sender::UploadMethod::Direct => seq!['d', 'i', 'r', 'e', 'c', 't'],
        crate::sender::UploadMethod::Split => seq!['s', 'p', 'l', 'i', 't'],
        crate::sender::UploadMethod::Dual => seq!['d', 'u', 'a', 'l'],
    }
}

/// Render the machine key of an upload method.
pub fn method_key_string(m: crate::sender::UploadMethod) -> (r: String)
    ensures
        r@ == spec_method_key(m),
{
    let mut s = String::new();
    match m {
        crate::sender::UploadMethod::Direct => {
            crate::strutil::push_char(&mut s, 'd');
            crate::strutil::push_char(&mut s, 'i');
            crate::strutil::push_char(&mut s, 'r');
            crate::strutil::push_char(&mut s, 'e');
            crate::strutil::push_char(&mut s, 'c');
            crate::strutil::push_char(&mut s, 't');
        },
        crate::sender::UploadMethod::Split => {
            crate::strutil::push_char(&mut s, 's');
            crate::strutil::push_char(&mut s, 'p');
            crate::strutil::push_char(&mut s, 'l');
            crate::strutil::push_char(&mut s, 'i');
            crate::strutil::push_char(&mut s, 't');
        },
        crate::sender::UploadMethod::Dual => {
            crate::strutil::push_char(&mut s, 'd');
            crate::strutil::push_char(&mut s, 'u');
            crate::strutil::push_char(&mut s, 'a');
            crate::strutil::push_char(&mut s, 'l');
        },
    }
    proof {
        assert(s@ =~= spec_method_key(m));
    }
    s
}

/// What the sender hands back once every part has been stored.
pub struct SenderResult {
    /// Machine key of the upload method.
    pub method: String,
    /// Number of parts.
    pub parts: u32,
    /// The parts, sorted by part number.
    pub parts_info: Vec<PartInfo>,
    /// Message ids, in the order the parts finished.
    pub message_ids: Vec<i64>,
    /// Jump links of the parts that have one, in the order the parts
    /// finished.
    pub jump_urls: Vec<String>,
}

/// The jump links present in a parts list, kept in list order.
pub open spec fn spec_jump_urls(parts: Seq<PartInfo>) -> Seq<Seq<char>>
    decreases parts.len(),
{
    if parts.len() == 0 {
        Seq::empty()
    } else {
        let rest = spec_jump_urls(parts.drop_last());
        match parts.last().jump_url {
            Some(u) => rest.push(u@),
            None => rest,
        }
    }
}

/// Assemble the sender's result from the finished parts, in the order
/// they finished: sort them by part number, classify the method, and
/// collect message ids and jump links.
///
/// When the finished parts carried each part number `1 ..= n` exactly
/// once, the sorted list holds part `i + 1` at slot `i`, and the count
/// equals the list's length.
pub fn finish_result(parts_info: Vec<PartInfo>, b_enabled: bool) -> (r: SenderResult)
    requires
        parts_info@.len() <= u32::MAX,
    ensures
        r.parts == parts_info@.len(),
        r.method@ == spec_method_key(
            crate::sender::spec_classify_method(r.parts, b_enabled),
        ),
        r.parts_info@.len() == parts_info@.len(),
        r.parts_info@.to_multiset() == parts_info@.to_multiset(),
        forall|i: int, j: int|
            0 <= i < j < r.parts_info@.len() ==> (#[trigger] r.parts_info@[i]).part <= (
            #[trigger] r.parts_info@[j]).part,
        parts_numbered_once(parts_info@) ==> forall|i: int|
            0 <= i < r.parts_info@.len() ==> (#[trigger] r.parts_info@[i]).part == i + 1,
        r.message_ids@.len() == parts_info@.len(),
        forall|i: int|
            0 <= i < parts_info@.len() ==> #[trigger] r.message_ids@[i]
                == parts_info@[i].message_id,
        r.jump_urls@.map_values(|u: String| u@) == spec_jump_urls(parts_info@),
{
    let mut message_ids: Vec<i64> = Vec::new();
    let mut jump_urls: Vec<String> = Vec::new();
    let mut i: usize = 0;
    let n = parts_info.len();
    while i < n
        invariant
            i <= n,
            n == parts_info@.len(),
            message_ids@.len() == i,
            forall|j: int|
                0 <= j < i ==> #[trigger] message_ids@[j] == parts_info@[j].message_id,
            jump_urls@.map_values(|u: String| u@) == spec_jump_urls(parts_info@.take(i as int)),
        decreases n - i,
    {
        let ghost prefix = parts_info@.take(i as int);
        message_ids.push(parts_info[i].message_id);
        proof {
            assert(parts_info@.take(i + 1).drop_last() =~= prefix);
            assert(parts_info@.take(i + 1).last() == parts_info@[i as int]);
        }
        match &parts_info[i].jump_url {
            Some(u) => {
                let ghost urls_before = jump_urls@;
                jump_urls.push(u.clone());
                proof {
                    assert(jump_urls@.map_values(|u: String| u@) =~= urls_before.map_values(
                        |u: String| u@,
                    ).push(parts_info@[i as int].jump_url->0@));
                }
            },
            None => {},
        }
        i = i + 1;
    }
    proof {
        assert(parts_info@.take(n as int) =~= parts_info@);
    }
    let sorted = sort_parts(parts_info);
    proof {
        broadcast use vstd::seq_lib::group_to_multiset_ensures;
        broadcast use vstd::multiset::group_multiset_axioms;

        if parts_numbered_once(parts_info@) {
            assert forall|a: int, b: int|
                0 <= a < b < parts_info@.len() implies #[trigger] parts_info@[a]
                != #[trigger] parts_info@[b] by {
                assert(parts_info@[a].part != parts_info@[b].part);
            }
            assert(parts_info@.no_duplicates());
            parts_info@.lemma_multiset_has_no_duplicates();
            sorted@.lemma_multiset_has_no_duplicates_conv();
            assert(sorted@.no_duplicates());
            assert forall|i2: int|
                0 <= i2 < sorted@.len() implies 1 <= (#[trigger] sorted@[i2]).part
                <= sorted@.len() by {
                assert(sorted@.to_multiset().contains(sorted@[i2]));
                assert(parts_info@.to_multiset().contains(sorted@[i2]));
                assert(parts_info@.contains(sorted@[i2]));
            }
            assert forall|a: int, b: int|
                0 <= a < b < sorted@.len() implies (#[trigger] sorted@[a]).part < (
            #[trigger] sorted@[b]).part by {
                assert(sorted@[a].part <= sorted@[b].part);
                if sorted@[a].part == sorted@[b].part {
                    assert(sorted@.to_multiset().contains(sorted@[a]));
                    assert(parts_info@.to_multiset().contains(sorted@[a]));
                    assert(parts_info@.contains(sorted@[a]));
                    assert(sorted@.to_multiset().contains(sorted@[b]));
                    assert(parts_info@.to_multiset().contains(sorted@[b]));
                    assert(parts_info@.contains(sorted@[b]));
                    let ia = choose|ia: int|
                        0 <= ia < parts_info@.len() && parts_info@[ia] == sorted@[a];
                    let ib = choose|ib: int|
                        0 <= ib < parts_info@.len() && parts_info@[ib] == sorted@[b];
                    assert(parts_info@[ia].part == parts_info@[ib].part);
                    assert(ia == ib);
                    assert(sorted@[a] == sorted@[b]);
                }
            }
            lemma_sorted_parts_canonical(sorted@);
        }
    }
    let parts_count = sorted.len() as u32;
    let method = method_key_string(crate::sender::classify_method(parts_count, b_enabled));
    SenderResult { method, parts: parts_count, parts_info: sorted, message_ids, jump_urls }
}

/// The human label of an upload method, with the part count spelled out
/// for the split and dual methods.
pub open spec fn spec_method_label(m: crate::sender::UploadMethod, parts: u32) -> Seq<char> {
    match m {
        crate::sender::UploadMethod::Direct => seq![
            'G',
            '\u{1eed}',
            'i',
            ' ',
            't',
            'h',
            '\u{1eb3}',
            'n',
            'g',
        ],
        crate::sender::UploadMethod::Split => seq!['C', 'h', 'i', 'a', ' ']
            + crate::strutil::spec_decimal(parts as nat) + seq![
            ' ',
            'p',
            'h',
            '\u{1ea7}',
            'n',
            ' ',
            '(',
            'D',
            'i',
            's',
            'c',
            'o',
            'r',
            'd',
            ')',
        ],
        crate::sender::UploadMethod::Dual => seq!['C', 'h', 'i', 'a', ' ']
            + crate::strutil::spec_decimal(parts as nat) + seq![
            ' ',
            'p',
            'h',
            '\u{1ea7}',
            'n',
            ' ',
            '(',
            'D',
            'i',
            's',
            'c',
            'o',
            'r',
            'd',
            '+',
            'T',
            'e',
            'l',
            'e',
            'g',
            'r',
            'a',
            'm',
            ')',
        ],
    }
}

/// Render the human label of an upload method.
pub fn method_label_string(m: crate::sender::UploadMethod, parts: u32) -> (r: String)
    ensures
        r@ == spec_method_label(m, parts),
{
    let mut s = String::new();
    match m {
        crate::sender::UploadMethod::Direct => {
            crate::strutil::push_char(&mut s, 'G');
            crate::strutil::push_char(&mut s, '\u{1eed}');
            crate::strutil::push_char(&mut s, 'i');
            crate::strutil::push_char(&mut s, ' ');
            crate::strutil::push_char(&mut s, 't');
            crate::strutil::push_char(&mut s, 'h');
            crate::strutil::push_char(&mut s, '\u{1eb3}');
            crate::strutil::push_char(&mut s, 'n');
            crate::strutil::push_char(&mut s, 'g');
        },
        _ => {
            crate::strutil::push_char(&mut s, 'C');
            crate::strutil::push_char(&mut s, 'h');
            crate::strutil::push_char(&mut s, 'i');
            crate::strutil::push_char(&mut s, 'a');
            crate::strutil::push_char(&mut s, ' ');
            crate::strutil::push_decimal(&mut s, parts as u64);
            crate::strutil::push_char(&mut s, ' ');
            crate::strutil::push_char(&mut s, 'p');
            crate::strutil::push_char(&mut s, 'h');
            crate::strutil::push_char(&mut s, '\u{1ea7}');
            crate::strutil::push_char(&mut s, 'n');
            crate::strutil::push_char(&mut s, ' ');
            crate::strutil::push_char(&mut s, '(');
            crate::strutil::push_char(&mut s, 'D');
            crate::strutil::push_char(&mut s, 'i');
            crate::strutil::push_char(&mut s, 's');
            crate::strutil::push_char(&mut s, 'c');
            crate::strutil::push_char(&mut s, 'o');
            crate::strutil::push_char(&mut s, 'r');
            crate::strutil::push_char(&mut s, 'd');
            let dual = match m {
                crate::sender::UploadMethod::Dual => true,
                _ => false,
            };
            if dual {
                crate::strutil::push_char(&mut s, '+');
                crate::strutil::push_char(&mut s, 'T');
                crate::strutil::push_char(&mut s, 'e');
                crate::strutil::push_char(&mut s, 'l');
                crate::strutil::push_char(&mut s, 'e');
                crate::strutil::push_char(&mut s, 'g');
                crate::strutil::push_char(&mut s, 'r');
                crate::strutil::push_char(&mut s, 'a');
                crate::strutil::push_char(&mut s, 'm');
            }
            crate::strutil::push_char(&mut s, ')');
        },
    }
    proof {
        assert(s@ =~= spec_method_label(m, parts));
    }
    s
}

/// A byte count shown in hundredths of a mebibyte, rounded to the
/// nearest hundredth (ties away from zero).
pub open spec fn spec_size_mb_100(bytes: u64) -> u64 {
    (((bytes * 100 + 524288) / 1048576) as u64)
}

/// Convert a byte count to hundredths of a mebibyte.
pub fn size_mb_100(bytes: u64) -> (r: u64)
    ensures
        r == spec_size_mb_100(bytes),
{
    let wide: u128 = ((bytes as u128) * 100 + 524288) / 1048576;
    proof {
        assert((bytes as u128) * 100 + 524288 <= (u64::MAX as u128) * 100 + 524288)
            by (nonlinear_arith)
            requires
                bytes <= u64::MAX,
        ;
        assert(((u64::MAX as u128) * 100 + 524288) / 1048576 < u64::MAX as u128);
        assert(wide <= ((u64::MAX as u128) * 100 + 524288) / 1048576) by (nonlinear_arith)
            requires
                wide == ((bytes as u128) * 100 + 524288) / 1048576,
                (bytes as u128) * 100 + 524288 <= (u64::MAX as u128) * 100 + 524288,
        ;
    }
    wide as u64
}

/// The upload method a stored method key names; an unknown key is read
/// as the split method.
pub open spec fn spec_method_of_key(key: Seq<char>) -> crate::sender::UploadMethod {
    if key == spec_method_key(crate::sender::UploadMethod::Direct) {
        crate::sender::UploadMethod::Direct
    } else if key == spec_method_key(crate::sender::UploadMethod::Dual) {
        crate::sender::UploadMethod::Dual
    } else {
        crate::sender::UploadMethod::Split
    }
}

/// The status tag of a stored record.
pub open spec fn spec_status_sent() -> Seq<char> {
    seq!['s', 'e', 'n', 't']
}

/// Assemble the stored record of a completed upload from its session,
/// the sender's result, a fresh record id and a display timestamp.
pub fn build_file_record(
    session: &crate::session::UploadSession,
    result: &SenderResult,
    record_id: i64,
    sent_at: String,
) -> (r: FileRecord)
    ensures
        r.id == record_id,
        r.filename == session.filename,
        r.size_mb_100 == spec_size_mb_100(session.file_size),
        session.channel_id is Some ==> r.channel_id == session.channel_id->0,
        session.channel_id is None ==> r.channel_id@.len() == 0,
        session.channel_name is Some ==> r.channel_name == session.channel_name->0,
        session.channel_name is None ==> r.channel_name@.len() == 0,
        session.folder_id@.len() == 0 ==> r.folder_id is None,
        session.folder_id@.len() > 0 ==> r.folder_id is Some && r.folder_id->0
            == session.folder_id,
        r.folder_name == session.folder_name,
        r.status@ == spec_status_sent(),
        r.method@ == spec_method_label(spec_method_of_key(result.method@), result.parts),
        r.method_key == result.method,
        r.parts == result.parts,
        r.parts_info@ == result.parts_info@,
        r.message_ids@ == result.message_ids@,
        result.jump_urls@.len() > 0 ==> r.jump_url is Some && r.jump_url->0
            == result.jump_urls@[0],
        result.jump_urls@.len() == 0 ==> r.jump_url is None,
        r.sent_at == sent_at,
{
    proof {
        reveal_strlit("direct");
        reveal_strlit("dual");
    }
    let method_enum = if crate::strutil::str_eq(result.method.as_str(), "direct") {
        crate::sender::UploadMethod::Direct
    } else if crate::strutil::str_eq(result.method.as_str(), "dual") {
        crate::sender::UploadMethod::Dual
    } else {
        crate::sender::UploadMethod::Split
    };
    proof {
        assert("direct"@ =~= spec_method_key(crate::sender::UploadMethod::Direct));
        assert("dual"@ =~= spec_method_key(crate::sender::UploadMethod::Dual));
        assert(method_enum == spec_method_of_key(result.method@));
    }
    let method_label = method_label_string(method_enum, result.parts);
    let channel_id = match &session.channel_id {
        Some(c) => c.clone(),
        None => String::new(),
    };
    let channel_name = match &session.channel_name {
        Some(c) => c.clone(),
        None => String::new(),
    };
    let folder_id = if session.folder_id.as_str().is_empty() {
        None
    } else {
        Some(session.folder_id.clone())
    };
    let folder_name = match &session.folder_name {
        Some(f) => Some(f.clone()),
        None => None,
    };
    let jump_url = if result.jump_urls.len() > 0 {
        Some(result.jump_urls[0].clone())
    } else {
        None
    };
    let mut status = String::new();
    crate::strutil::push_char(&mut status, 's');
    crate::strutil::push_char(&mut status, 'e');
    crate::strutil::push_char(&mut status, 'n');
    crate::strutil::push_char(&mut status, 't');
    proof {
        assert(status@ =~= spec_status_sent());
    }
    let mut parts_info: Vec<PartInfo> = Vec::new();
    let mut i: usize = 0;
    let n = result.parts_info.len();
    while i < n
        invariant
            i <= n,
            n == result.parts_info@.len(),
            parts_info@ == result.parts_info@.take(i as int),
        decreases n - i,
    {
        parts_info.push(result.parts_info[i].clone());
        proof {
            assert(result.parts_info@.take(i + 1) =~= result.parts_info@.take(i as int).push(
                result.parts_info@[i as int],
            ));
        }
        i = i + 1;
    }
    proof {
        assert(result.parts_info@.take(n as int) =~= result.parts_info@);
    }
    let mut message_ids: Vec<i64> = Vec::new();
    let mut j: usize = 0;
    while j < result.message_ids.len()
        invariant
            j <= result.message_ids@.len(),
            message_ids@ == result.message_ids@.take(j as int),
        decreases result.message_ids@.len() - j,
    {
        message_ids.push(result.message_ids[j]);
        proof {
            assert(result.message_ids@.take(j + 1) =~= result.message_ids@.take(j as int).push(
                result.message_ids@[j as int],
            ));
        }
        j = j + 1;
    }
    proof {
        assert(result.message_ids@.take(result.message_ids@.len() as int)
            =~= result.message_ids@);
    }
    FileRecord {
        id: record_id,
        filename: session.filename.clone(),
        size_mb_100: size_mb_100(session.file_size),
        channel_id,
        channel_name,
        folder_id,
        folder_name,
        status,
        method: method_label,
        method_key: result.method.clone(),
        parts: result.parts,
        parts_info,
        message_ids,
        jump_url,
        sent_at,
    }
}

} // verus!
