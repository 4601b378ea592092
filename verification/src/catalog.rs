//! The client's asset catalog (`catalog-content.json`): which sprite sheet
//! holds which sprite ids, and which file holds the appearances.
//!
//! `serde_json` reads the JSON text into `CatalogEntry` values; what the
//! entries mean is decided here.

use vstd::prelude::*;

verus! {

/// How sprites are laid out in a sheet.
#[derive(Debug, Clone, Copy, PartialEq, Eq, Structural, Default)]
pub enum SpriteLayout {
    #[default]
    OneByOne,
    OneByTwo,
    TwoByOne,
    TwoByTwo,
}

/// The size of one sprite of a sheet with this layout, in pixels.
pub open spec fn sprite_dims(l: SpriteLayout) -> (u32, u32) {
    match l {
        SpriteLayout::OneByOne => (32u32, 32u32),
        SpriteLayout::OneByTwo => (32u32, 64u32),
        SpriteLayout::TwoByOne => (64u32, 32u32),
        SpriteLayout::TwoByTwo => (64u32, 64u32),
    }
}

impl SpriteLayout {
    /// The size of one sprite of the sheet, in pixels.
    pub fn sprite_size(self) -> (s: (u32, u32))
        ensures
            s == sprite_dims(self),
    {
        match self {
            SpriteLayout::OneByOne => (32, 32),
            SpriteLayout::OneByTwo => (32, 64),
            SpriteLayout::TwoByOne => (64, 32),
            SpriteLayout::TwoByTwo => (64, 64),
        }
    }
}

/// The layout that a catalog's `spritetype` number names (an unknown
/// number is one by one).
pub open spec fn layout_of(t: u32) -> SpriteLayout {
    if t == 1 {
        SpriteLayout::OneByTwo
    } else if t == 2 {
        SpriteLayout::TwoByOne
    } else if t == 3 {
        SpriteLayout::TwoByTwo
    } else {
        SpriteLayout::OneByOne
    }
}

#[derive(Debug, Clone)]
pub struct SpriteSheetInfo {
    pub first_id: u32,
    pub last_id: u32,
    pub sprite_type: SpriteLayout,
    /// The file name, relative to the assets directory.
    pub file: String,
}

pub struct SheetView {
    pub first_id: u32,
    pub last_id: u32,
    pub sprite_type: SpriteLayout,
    pub file: Seq<char>,
}

impl View for SpriteSheetInfo {
    type V = SheetView;

    open spec fn view(&self) -> SheetView {
        SheetView {
            first_id: self.first_id,
            last_id: self.last_id,
            sprite_type: self.sprite_type,
            file: self.file@,
        }
    }
}

#[derive(Debug, Clone, Default)]
pub struct Catalog {
    pub appearance_file: String,
    pub sheets: Vec<SpriteSheetInfo>,
    pub sprites_count: u32,
}

/// The sheets are in increasing order of their last id.
pub open spec fn sorted_by_last(s: Seq<SheetView>) -> bool {
    forall|i: int, j: int| 0 <= i <= j < s.len() ==> #[trigger] s[i].last_id <= #[trigger] s[j].last_id
}

impl Catalog {
    pub open spec fn sheets_view(&self) -> Seq<SheetView> {
        self.sheets@.map_values(|s: SpriteSheetInfo| s@)
    }

    /// The sheet that holds `sprite_id`, if any, found by binary search
    /// over the sheets sorted by last id: the first sheet whose last id is
    /// not below `sprite_id`, when its first id is not above it. Sprite id 0
    /// is in no sheet.
    pub fn sheet_for_sprite(&self, sprite_id: u32) -> (r: Option<&SpriteSheetInfo>)
        ensures
            r matches Some(s) ==> sprite_id != 0 && s.first_id <= sprite_id && self.sheets_view().contains(s@),
            sorted_by_last(self.sheets_view()) ==> match r {
                Some(s) => first_reaching(self.sheets_view(), sprite_id, s@),
                None => sprite_id == 0 || forall|k: int|
                    #![trigger self.sheets_view()[k]]
                    0 <= k < self.sheets_view().len() && first_reaching_at(self.sheets_view(), sprite_id, k)
                        ==> self.sheets_view()[k].first_id > sprite_id,
            },
    {
        if sprite_id == 0 {
            return None;
        }
        let ghost sv = self.sheets_view();
        let mut lo: usize = 0;
        let mut hi: usize = self.sheets.len();
        while lo < hi
            invariant
                lo <= hi <= self.sheets@.len(),
                sv == self.sheets_view(),
                sv.len() == self.sheets@.len(),
                sorted_by_last(sv) ==> forall|j: int| 0 <= j < lo ==> #[trigger] sv[j].last_id < sprite_id,
                sorted_by_last(sv) ==> forall|j: int| hi <= j < sv.len() ==> #[trigger] sv[j].last_id >= sprite_id,
            decreases hi - lo,
        {
            let mid = lo + (hi - lo) / 2;
            assert(sv[mid as int] == self.sheets@[mid as int]@);
            if self.sheets[mid].last_id < sprite_id {
                proof {
                    if sorted_by_last(sv) {
                        assert forall|j: int| 0 <= j < mid + 1 implies #[trigger] sv[j].last_id < sprite_id by {
                            assert(sv[j].last_id <= sv[mid as int].last_id);
                        }
                    }
                }
                lo = mid + 1;
            } else {
                proof {
                    if sorted_by_last(sv) {
                        assert forall|j: int| mid <= j < sv.len() implies #[trigger] sv[j].last_id >= sprite_id by {
                            assert(sv[mid as int].last_id <= sv[j].last_id);
                        }
                    }
                }
                hi = mid;
            }
        }
        if lo >= self.sheets.len() {
            proof {
                if sorted_by_last(sv) {
                    assert forall|k: int|
                        #![trigger sv[k]]
                        0 <= k < sv.len() && first_reaching_at(sv, sprite_id, k) implies sv[k].first_id > sprite_id by {
                        assert(sv[k].last_id < sprite_id);
                    }
                }
            }
            return None;
        }
        let sheet = &self.sheets[lo];
        assert(sv[lo as int] == sheet@);
        if sprite_id < sheet.first_id {
            proof {
                if sorted_by_last(sv) {
                    assert forall|k: int|
                        #![trigger sv[k]]
                        0 <= k < sv.len() && first_reaching_at(sv, sprite_id, k) implies sv[k].first_id > sprite_id by {
                        if k < lo {
                            assert(sv[k].last_id < sprite_id);
                        } else if k > lo {
                            assert(sv[lo as int].last_id >= sprite_id);
                        }
                    }
                }
            }
            return None;
        }
        proof {
            if sorted_by_last(sv) {
                assert(first_reaching_at(sv, sprite_id, lo as int));
            }
            assert(sv.contains(sheet@));
        }
        Some(sheet)
    }
}

/// `k` is the first sheet whose last id is not below `id`.
pub open spec fn first_reaching_at(s: Seq<SheetView>, id: u32, k: int) -> bool {
    &&& 0 <= k < s.len()
    &&& s[k].last_id >= id
    &&& forall|j: int| 0 <= j < k ==> #[trigger] s[j].last_id < id
}

/// `x` is the first sheet whose last id is not below `id`.
pub open spec fn first_reaching(s: Seq<SheetView>, id: u32, x: SheetView) -> bool {
    exists|k: int| first_reaching_at(s, id, k) && s[k] == x
}

/// No two sheets share a sprite id: each ends before the next begins.
pub open spec fn disjoint_sheets(s: Seq<SheetView>) -> bool {
    forall|i: int, j: int| 0 <= i < j < s.len() ==> #[trigger] s[i].last_id < #[trigger] s[j].first_id
}

/// Among sorted sheets that do not overlap, the first sheet whose last id
/// reaches a sprite id held by sheet `h` is sheet `h`, and no other: the
/// search of `sheet_for_sprite` finds the sheet that holds the sprite.
pub proof fn lemma_search_finds_holder(s: Seq<SheetView>, id: u32, h: int)
    requires
        sorted_by_last(s),
        disjoint_sheets(s),
        0 <= h < s.len(),
        s[h].first_id <= id <= s[h].last_id,
    ensures
        first_reaching_at(s, id, h),
        forall|k: int| #[trigger] first_reaching_at(s, id, k) ==> k == h,
        forall|x: SheetView| #[trigger] first_reaching(s, id, x) <==> x == s[h],
{
    assert forall|j: int| 0 <= j < h implies #[trigger] s[j].last_id < id by {
        assert(s[j].last_id < s[h].first_id);
    }
    assert forall|k: int| #[trigger] first_reaching_at(s, id, k) implies k == h by {
        if k < h {
            assert(s[k].last_id < id);
        } else if k > h {
            assert(s[h].last_id < id);
        }
    }
    assert forall|x: SheetView| #[trigger] first_reaching(s, id, x) <==> x == s[h] by {
        if x == s[h] {
            assert(first_reaching_at(s, id, h) && s[h] == x);
        }
    }
}

/// One entry of the catalog, as read from the JSON text: the fields that
/// matter here, each where present (numbers as unsigned integers).
#[derive(Debug, Clone)]
pub struct CatalogEntry {
    /// `type`: `"appearances"`, `"sprite"`, ...
    pub kind: Option<String>,
    pub file: Option<String>,
    pub first_sprite_id: Option<u64>,
    pub last_sprite_id: Option<u64>,
    pub sprite_type: Option<u64>,
}

pub struct EntryView {
    pub kind: Option<Seq<char>>,
    pub file: Option<Seq<char>>,
    pub first_sprite_id: Option<u64>,
    pub last_sprite_id: Option<u64>,
    pub sprite_type: Option<u64>,
}

pub open spec fn opt_chars(o: Option<String>) -> Option<Seq<char>> {
    match o {
        Some(s) => Some(s@),
        None => None,
    }
}

impl View for CatalogEntry {
    type V = EntryView;

    open spec fn view(&self) -> EntryView {
        EntryView {
            kind: opt_chars(self.kind),
            file: opt_chars(self.file),
            first_sprite_id: self.first_sprite_id,
            last_sprite_id: self.last_sprite_id,
            sprite_type: self.sprite_type,
        }
    }
}

/// The sheet that a sprite entry describes, when it has both ids (ids and
/// type taken as `u32`, a missing file as the empty name).
pub open spec fn sheet_of(e: EntryView) -> Option<SheetView> {
    if e.kind == Some("sprite"@) && e.first_sprite_id is Some && e.last_sprite_id is Some {
        Some(
            SheetView {
                first_id: e.first_sprite_id->0 as u32,
                last_id: e.last_sprite_id->0 as u32,
                sprite_type: layout_of(
                    match e.sprite_type {
                        Some(t) => t as u32,
                        None => 0,
                    },
                ),
                file: match e.file {
                    Some(f) => f,
                    None => Seq::empty(),
                },
            },
        )
    } else {
        None
    }
}

/// The sheets of the first `n` entries, in entry order.
pub open spec fn entry_sheets(es: Seq<EntryView>, n: nat) -> Seq<SheetView>
    decreases n,
{
    if n == 0 || n > es.len() {
        Seq::empty()
    } else {
        let s = entry_sheets(es, (n - 1) as nat);
        match sheet_of(es[n - 1]) {
            Some(sh) => s.push(sh),
            None => s,
        }
    }
}

/// The appearances file named by the first `n` entries: the last
/// appearances entry with a file.
pub open spec fn appearance_file_of(es: Seq<EntryView>, n: nat) -> Seq<char>
    decreases n,
{
    if n == 0 || n > es.len() {
        Seq::empty()
    } else if es[n - 1].kind == Some("appearances"@) && es[n - 1].file is Some {
        es[n - 1].file->0
    } else {
        appearance_file_of(es, (n - 1) as nat)
    }
}

/// The largest last id of the sheets (0 when there are none).
pub open spec fn max_last(s: Seq<SheetView>) -> u32
    decreases s.len(),
{
    if s.len() == 0 {
        0
    } else {
        let m = max_last(s.drop_last());
        if s.last().last_id > m {
            s.last().last_id
        } else {
            m
        }
    }
}

/// `s` with `x` placed after every sheet whose last id is not above its own
/// (the step of a stable sort by last id).
pub open spec fn insert_by_last(s: Seq<SheetView>, x: SheetView) -> Seq<SheetView> {
    let k = count_not_above(s, x.last_id, s.len());
    s.insert(k, x)
}

/// How many of the first `n` sheets of a sorted `s` have a last id not
/// above `last`.
pub open spec fn count_not_above(s: Seq<SheetView>, last: u32, n: nat) -> int
    decreases n,
{
    if n == 0 || n > s.len() {
        0
    } else if s[n - 1].last_id <= last {
        n as int
    } else {
        count_not_above(s, last, (n - 1) as nat)
    }
}

/// The sheets stably sorted by last id: sheets with equal last ids keep
/// their order.
pub open spec fn stable_sort_by_last(s: Seq<SheetView>) -> Seq<SheetView>
    decreases s.len(),
{
    if s.len() == 0 {
        s
    } else {
        insert_by_last(stable_sort_by_last(s.drop_last()), s.last())
    }
}

proof fn lemma_count_not_above(s: Seq<SheetView>, last: u32, n: nat)
    requires
        n <= s.len(),
    ensures
        0 <= count_not_above(s, last, n) <= n,
        forall|j: int| count_not_above(s, last, n) <= j < n ==> #[trigger] s[j].last_id > last,
        count_not_above(s, last, n) > 0 ==> s[count_not_above(s, last, n) - 1].last_id <= last,
    decreases n,
{
    if n > 0 && s[n - 1].last_id > last {
        lemma_count_not_above(s, last, (n - 1) as nat);
    }
}

/// Placing a sheet into sheets sorted by last id keeps them sorted.
pub proof fn lemma_insert_keeps_sorted(s: Seq<SheetView>, x: SheetView)
    requires
        sorted_by_last(s),
    ensures
        sorted_by_last(insert_by_last(s, x)),
        insert_by_last(s, x).len() == s.len() + 1,
{
    let k = count_not_above(s, x.last_id, s.len());
    lemma_count_not_above(s, x.last_id, s.len());
    let r = s.insert(k, x);
    assert forall|i: int, j: int| 0 <= i <= j < r.len() implies #[trigger] r[i].last_id <= #[trigger] r[j].last_id by {
        if i < k && j < k {
            assert(r[i] == s[i] && r[j] == s[j]);
        } else if i < k && j == k {
            assert(r[i] == s[i]);
            assert(s[i].last_id <= s[k - 1].last_id);
        } else if i < k && j > k {
            assert(r[i] == s[i] && r[j] == s[j - 1]);
        } else if i == k && j > k {
            assert(r[j] == s[j - 1]);
        } else if i > k {
            assert(r[i] == s[i - 1] && r[j] == s[j - 1]);
        }
    }
}

/// The sheets of a catalog are sorted by last id.
pub proof fn lemma_stable_sort_sorted(s: Seq<SheetView>)
    ensures
        sorted_by_last(stable_sort_by_last(s)),
        stable_sort_by_last(s).len() == s.len(),
    decreases s.len(),
{
    if s.len() > 0 {
        lemma_stable_sort_sorted(s.drop_last());
        lemma_insert_keeps_sorted(stable_sort_by_last(s.drop_last()), s.last());
    }
}

fn is_kind(e: &CatalogEntry, kind: &String) -> (b: bool)
    ensures
        b == (e@.kind == Some(kind@)),
{
    match &e.kind {
        Some(k) => *k == *kind,
        None => false,
    }
}

/// The catalog that the entries describe: the last appearances entry with
/// a file names the appearances file; each sprite entry with both ids is a
/// sheet; the sheets are stably sorted by last id; the sprite count is the
/// largest last id. Other entries are ignored.
pub fn catalog_from_entries(entries: &Vec<CatalogEntry>) -> (c: Catalog)
    ensures
        c.appearance_file@ == appearance_file_of(entries@.map_values(|e: CatalogEntry| e@), entries@.len()),
        c.sheets_view() == stable_sort_by_last(entry_sheets(entries@.map_values(|e: CatalogEntry| e@), entries@.len())),
        c.sprites_count == max_last(entry_sheets(entries@.map_values(|e: CatalogEntry| e@), entries@.len())),
        sorted_by_last(c.sheets_view()),
{
    let ghost es = entries@.map_values(|e: CatalogEntry| e@);
    let appearances_kind = "appearances".to_owned();
    let sprite_kind = "sprite".to_owned();
    proof {
        reveal_strlit("appearances");
        reveal_strlit("sprite");
        assert("appearances"@.len() == 11);
        assert("sprite"@.len() == 6);
    }
    let mut appearance_file = String::new();
    let mut sheets: Vec<SpriteSheetInfo> = Vec::new();
    let mut sprites_count: u32 = 0;
    let mut i: usize = 0;
    while i < entries.len()
        invariant
            i <= entries@.len(),
            es == entries@.map_values(|e: CatalogEntry| e@),
            appearances_kind@ == "appearances"@,
            sprite_kind@ == "sprite"@,
            "appearances"@ != "sprite"@,
            appearance_file@ == appearance_file_of(es, i as nat),
            sheets@.map_values(|s: SpriteSheetInfo| s@) == entry_sheets(es, i as nat),
            sprites_count == max_last(entry_sheets(es, i as nat)),
        decreases entries@.len() - i,
    {
        let e = &entries[i];
        assert(es[i as int] == e@);
        let ghost sheets_before = entry_sheets(es, i as nat);
        if is_kind(e, &appearances_kind) {
            match &e.file {
                Some(f) => {
                    appearance_file = f.clone();
                },
                None => {},
            }
        } else if is_kind(e, &sprite_kind) {
            match (e.first_sprite_id, e.last_sprite_id) {
                (Some(first), Some(last)) => {
                    let t: u32 = match e.sprite_type {
                        Some(t) => t as u32,
                        None => 0,
                    };
                    let sprite_type = if t == 1 {
                        SpriteLayout::OneByTwo
                    } else if t == 2 {
                        SpriteLayout::TwoByOne
                    } else if t == 3 {
                        SpriteLayout::TwoByTwo
                    } else {
                        SpriteLayout::OneByOne
                    };
                    let file = match &e.file {
                        Some(f) => f.clone(),
                        None => String::new(),
                    };
                    let sheet = SpriteSheetInfo { first_id: first as u32, last_id: last as u32, sprite_type, file };
                    if sheet.last_id > sprites_count {
                        sprites_count = sheet.last_id;
                    }
                    let ghost before = sheets@;
                    let ghost sv = sheet@;
                    sheets.push(sheet);
                    assert(sheets@.map_values(|s: SpriteSheetInfo| s@) =~= before.map_values(
                        |s: SpriteSheetInfo| s@,
                    ).push(sv));
                    assert(entry_sheets(es, i as nat + 1) == entry_sheets(es, i as nat).push(sv));
                    assert(entry_sheets(es, i as nat).push(sv).drop_last() =~= entry_sheets(es, i as nat));
                },
                _ => {},
            }
        }
        assert(sheet_of(es[i as int]) is None ==> entry_sheets(es, i as nat + 1) == sheets_before);
        i += 1;
    }
    let ghost unsorted = sheets@.map_values(|s: SpriteSheetInfo| s@);
    let mut sorted: Vec<SpriteSheetInfo> = Vec::new();
    let mut rest = sheets;
    let total = rest.len();
    let ghost all = rest@;
    let mut j: usize = 0;
    // The sheets are placed one by one in entry order: `front` holds them
    // reversed, so that the next one is at its end.
    let mut front: Vec<SpriteSheetInfo> = Vec::new();
    while rest.len() > 0
        invariant
            rest@.len() + front@.len() == all.len(),
            all.len() == total,
            forall|k: int| 0 <= k < rest@.len() ==> #[trigger] rest@[k] == all[k],
            forall|k: int| 0 <= k < front@.len() ==> #[trigger] front@[k] == all[all.len() - 1 - k],
        decreases rest@.len(),
    {
        let s = rest.pop().unwrap();
        front.push(s);
    }
    assert(sorted@.map_values(|s: SpriteSheetInfo| s@) =~= stable_sort_by_last(unsorted.take(0)));
    while front.len() > 0
        invariant
            front@.len() + j == all.len(),
            j <= all.len(),
            all.len() == total,
            unsorted == all.map_values(|s: SpriteSheetInfo| s@),
            forall|k: int| 0 <= k < front@.len() ==> #[trigger] front@[k] == all[all.len() - 1 - k],
            sorted@.map_values(|s: SpriteSheetInfo| s@) == stable_sort_by_last(unsorted.take(j as int)),
        decreases front@.len(),
    {
        let s = front.pop().unwrap();
        assert(s == all[j as int]);
        let ghost sorted_view = sorted@.map_values(|s: SpriteSheetInfo| s@);
        let mut k = sorted.len();
        while k > 0 && sorted[k - 1].last_id > s.last_id
            invariant
                k <= sorted@.len(),
                sorted_view == sorted@.map_values(|s: SpriteSheetInfo| s@),
                count_not_above(sorted_view, s.last_id, sorted_view.len()) == count_not_above(
                    sorted_view,
                    s.last_id,
                    k as nat,
                ),
            decreases k,
        {
            k -= 1;
        }
        let ghost x = s@;
        sorted.insert(k, s);
        assert(unsorted.take(j + 1).drop_last() =~= unsorted.take(j as int));
        assert(unsorted.take(j + 1).last() == x);
        assert(sorted@.map_values(|s: SpriteSheetInfo| s@) =~= sorted_view.insert(k as int, x));
        j += 1;
    }
    assert(unsorted.take(all.len() as int) =~= unsorted);
    proof {
        lemma_stable_sort_sorted(unsorted);
    }
    Catalog { appearance_file, sheets: sorted, sprites_count }
}

#[verifier::external_type_specification]
#[verifier::external_body]
pub struct ExSerdeJsonError(serde_json::Error);

/// What `serde_json` reads from a catalog text: `None` when it is not
/// JSON, `Some(None)` when it is JSON but no array, else the entries of the
/// array, each object's fields taken as `CatalogEntry` does.
pub uninterp spec fn catalog_json(text: Seq<char>) -> Option<Option<Seq<EntryView>>>;

/// `serde_json::from_str::<serde_json::Value>` on `text`, then
/// `Value::as_array`, and for each element the string fields `type` and
/// `file` (`Value::as_str`) and the number fields `firstspriteid`,
/// `lastspriteid` and `spritetype` (`Value::as_u64`), each `None` where
/// absent or of another kind. The contract names the outcome; it depends on
/// the text alone.
#[verifier::external_body]
fn read_catalog_json(text: &str) -> (r: Result<Option<Vec<CatalogEntry>>, serde_json::Error>)
    ensures
        match r {
            Err(_) => catalog_json(text@) is None,
            Ok(None) => catalog_json(text@) == Some(None::<Seq<EntryView>>),
            Ok(Some(v)) => catalog_json(text@) == Some(Some(v@.map_values(|e: CatalogEntry| e@))),
        },
{
    let doc: serde_json::Value = serde_json::from_str(text)?;
    Ok(doc.as_array().map(|a| a.iter().map(|o| CatalogEntry {
        kind: o.get("type").and_then(serde_json::Value::as_str).map(str::to_string),
        file: o.get("file").and_then(serde_json::Value::as_str).map(str::to_string),
        first_sprite_id: o.get("firstspriteid").and_then(serde_json::Value::as_u64),
        last_sprite_id: o.get("lastspriteid").and_then(serde_json::Value::as_u64),
        sprite_type: o.get("spritetype").and_then(serde_json::Value::as_u64),
    }).collect()))
}

/// Why a catalog text was refused.
#[derive(Debug)]
pub enum CatalogError {
    /// The text is not JSON (the parser's error).
    InvalidJson(serde_json::Error),
    /// The JSON is not an array.
    NotArray,
}

impl CatalogError {
    /// The text shown for it (the parser's own error is not part of it).
    pub fn message(&self) -> (s: &'static str)
        ensures
            s@ == (match self {
                CatalogError::InvalidJson(_) => "catalog-content.json inválido"@,
                CatalogError::NotArray => "catalog-content.json deve ser um array JSON"@,
            }),
    {
        match self {
            CatalogError::InvalidJson(_) => "catalog-content.json inválido",
            CatalogError::NotArray => "catalog-content.json deve ser um array JSON",
        }
    }
}

/// Reads the content of `catalog-content.json`: a JSON array of entries,
/// whose meaning `catalog_from_entries` gives.
pub fn parse_catalog(data: &str) -> (r: Result<Catalog, CatalogError>)
    ensures
        match catalog_json(data@) {
            None => r matches Err(e) && e is InvalidJson,
            Some(None) => r matches Err(e) && e is NotArray,
            Some(Some(es)) => r matches Ok(c) && c.appearance_file@ == appearance_file_of(es, es.len())
                && c.sheets_view() == stable_sort_by_last(entry_sheets(es, es.len()))
                && c.sprites_count == max_last(entry_sheets(es, es.len())) && sorted_by_last(c.sheets_view()),
        },
{
    match read_catalog_json(data) {
        Err(e) => Err(CatalogError::InvalidJson(e)),
        Ok(None) => Err(CatalogError::NotArray),
        Ok(Some(entries)) => Ok(catalog_from_entries(&entries)),
    }
}

} // verus!
