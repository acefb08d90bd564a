//! What the PDF writer decides for itself: the blend colour space of each placed page's isolated
//! transparency group, and the text of the group dictionaries it synthesises.

use vstd::prelude::*;
use vstd::string::StringSliceAdditionalSpecFns;

verus! {

/// Blend colour space for a placed page's isolated transparency-group wrapper.
#[derive(Clone, Copy, Debug, PartialEq, Eq, Structural)]
pub enum GroupCs {
    DeviceCmyk,
    DeviceRgb,
    DeviceGray,
}

impl GroupCs {
    /// The PDF name of the colour-space family, without its leading slash.
    pub open spec fn name_chars(self) -> Seq<char> {
        match self {
            GroupCs::DeviceCmyk => "DeviceCMYK"@,
            GroupCs::DeviceRgb => "DeviceRGB"@,
            GroupCs::DeviceGray => "DeviceGray"@,
        }
    }

    /// The number of colour components of the family (gray 1, RGB 3, CMYK 4).
    pub open spec fn components(self) -> int {
        match self {
            GroupCs::DeviceCmyk => 4,
            GroupCs::DeviceRgb => 3,
            GroupCs::DeviceGray => 1,
        }
    }

    /// The PDF name of the colour-space family, without its leading slash.
    pub fn pdf_name(&self) -> (name: &'static str)
        ensures
            name@ == self.name_chars(),
    {
        match self {
            GroupCs::DeviceCmyk => "DeviceCMYK",
            GroupCs::DeviceRgb => "DeviceRGB",
            GroupCs::DeviceGray => "DeviceGray",
        }
    }
}

} // verus!

verus! {

/// What a source page declares as the colour space of its transparency group, as read from the
/// page: nothing usable (no `/Group` dictionary, no `/CS`, or a `/CS` of another kind), a colour
/// space name, or an array (ICC-based), with the component count `/N` of the ICC stream that is
/// its second element when there is one.
#[derive(Clone, Debug)]
pub enum GroupDecl {
    Undeclared,
    Name(String),
    Array(Option<i32>),
}

/// `s` without its leading slashes.
pub open spec fn trim_slashes(s: Seq<char>) -> Seq<char>
    decreases s.len(),
{
    if s.len() > 0 && s[0] == '/' {
        trim_slashes(s.drop_first())
    } else {
        s
    }
}

/// The blend space for a declared colour space name: the RGB family, the gray family, and the
/// device default (CMYK) for anything else.
pub open spec fn named_group_cs(name: Seq<char>) -> GroupCs {
    let n = trim_slashes(name);
    if n == "DeviceRGB"@ || n == "CalRGB"@ || n == "RGB"@ {
        GroupCs::DeviceRgb
    } else if n == "DeviceGray"@ || n == "CalGray"@ || n == "G"@ {
        GroupCs::DeviceGray
    } else {
        GroupCs::DeviceCmyk
    }
}

/// The blend space for an ICC profile with `n` components: one is gray, three RGB, anything else
/// (or an unknown count) CMYK.
pub open spec fn component_group_cs(n: Option<i32>) -> GroupCs {
    match n {
        Some(k) => if k == 1 {
            GroupCs::DeviceGray
        } else if k == 3 {
            GroupCs::DeviceRgb
        } else {
            GroupCs::DeviceCmyk
        },
        None => GroupCs::DeviceCmyk,
    }
}

/// The blend space a page's group declaration resolves to (DeviceCMYK, the prepress device
/// default, when it declares none).
pub open spec fn declared_group_cs(d: GroupDecl) -> GroupCs {
    match d {
        GroupDecl::Undeclared => GroupCs::DeviceCmyk,
        GroupDecl::Name(n) => named_group_cs(n@),
        GroupDecl::Array(n) => component_group_cs(n),
    }
}

/// An ICC-based group blends in the device family with as many components as its profile: a
/// one-component profile in DeviceGray, a three-component one in DeviceRGB, a four-component one
/// in DeviceCMYK; any other or unknown count, and an undeclared group, fall back to DeviceCMYK.
/// The ICC families agree with the device colour-space names of the same families.
pub proof fn icc_group_matches_component_count(n: Option<i32>)
    ensures
        n matches Some(k) && (k == 1 || k == 3 || k == 4) ==> declared_group_cs(GroupDecl::Array(n)).components()
            == n->0,
        !(n matches Some(k) && (k == 1 || k == 3)) ==> declared_group_cs(GroupDecl::Array(n))
            == GroupCs::DeviceCmyk,
        declared_group_cs(GroupDecl::Undeclared) == GroupCs::DeviceCmyk,
        declared_group_cs(GroupDecl::Array(Some(3))) == named_group_cs("DeviceRGB"@),
        declared_group_cs(GroupDecl::Array(Some(1))) == named_group_cs("DeviceGray"@),
        declared_group_cs(GroupDecl::Array(Some(4))) == named_group_cs("DeviceCMYK"@),
{
    reveal_strlit("DeviceRGB");
    reveal_strlit("DeviceGray");
    reveal_strlit("DeviceCMYK");
    reveal_strlit("CalRGB");
    reveal_strlit("RGB");
    reveal_strlit("CalGray");
    reveal_strlit("G");
    assert(trim_slashes("DeviceRGB"@) == "DeviceRGB"@);
    assert(trim_slashes("DeviceGray"@) == "DeviceGray"@);
    assert(trim_slashes("DeviceCMYK"@) == "DeviceCMYK"@);
    assert("DeviceCMYK"@ != "DeviceRGB"@ && "DeviceCMYK"@ != "CalRGB"@ && "DeviceCMYK"@ != "RGB"@) by {
        assert("DeviceCMYK"@[6] != "DeviceRGB"@[6]);
    }
    assert("DeviceCMYK"@ != "DeviceGray"@ && "DeviceCMYK"@ != "CalGray"@ && "DeviceCMYK"@ != "G"@) by {
        assert("DeviceCMYK"@[6] != "DeviceGray"@[6]);
    }
    assert("DeviceGray"@ != "DeviceRGB"@ && "DeviceGray"@ != "CalRGB"@ && "DeviceGray"@ != "RGB"@) by {
        assert("DeviceGray"@[6] != "DeviceRGB"@[6]);
    }
}

fn chars_of(s: &str) -> (v: Vec<char>)
    ensures
        v@ == s@,
{
    let mut v: Vec<char> = Vec::new();
    for c in it: s.chars()
        invariant
            v@ == it.seq().take(it.index() as int),
    {
        v.push(c);
    }
    v
}

/// Whether `v` from position `k` on spells exactly `word`.
fn tail_is(v: &Vec<char>, k: usize, word: &str) -> (b: bool)
    requires
        k <= v.len(),
    ensures
        b == (v@.subrange(k as int, v.len() as int) == word@),
{
    let w = chars_of(word);
    let ghost tail = v@.subrange(k as int, v.len() as int);
    if v.len() - k != w.len() {
        assert(tail.len() != w@.len());
        return false;
    }
    let mut i: usize = 0;
    while i < w.len()
        invariant
            k <= v.len(),
            v.len() - k == w.len(),
            tail == v@.subrange(k as int, v.len() as int),
            w@ == word@,
            i <= w.len(),
            forall|j: int| 0 <= j < i ==> tail[j] == w@[j],
        decreases w.len() - i,
    {
        if v[k + i] != w[i] {
            assert(tail[i as int] != w@[i as int]);
            return false;
        }
        i = i + 1;
    }
    assert(tail =~= w@);
    true
}

/// The blend space a declared colour space name resolves to (leading slashes ignored).
pub fn group_cs_for_name(name: &str) -> (cs: GroupCs)
    ensures
        cs == named_group_cs(name@),
{
    let v = chars_of(name);
    let mut k: usize = 0;
    assert(v@.subrange(0, v.len() as int) =~= v@);
    while k < v.len() && v[k] == '/'
        invariant
            k <= v.len(),
            v@ == name@,
            trim_slashes(v@) == trim_slashes(v@.subrange(k as int, v.len() as int)),
        decreases v.len() - k,
    {
        proof {
            let t = v@.subrange(k as int, v.len() as int);
            assert(t.drop_first() =~= v@.subrange(k + 1, v.len() as int));
        }
        k = k + 1;
    }
    proof {
        let t = v@.subrange(k as int, v.len() as int);
        assert(trim_slashes(t) == t);
    }
    if tail_is(&v, k, "DeviceRGB") || tail_is(&v, k, "CalRGB") || tail_is(&v, k, "RGB") {
        GroupCs::DeviceRgb
    } else if tail_is(&v, k, "DeviceGray") || tail_is(&v, k, "CalGray") || tail_is(&v, k, "G") {
        GroupCs::DeviceGray
    } else {
        GroupCs::DeviceCmyk
    }
}

/// The blend space for an ICC profile with `n` components (CMYK when unknown).
pub fn group_cs_for_components(n: Option<i32>) -> (cs: GroupCs)
    ensures
        cs == component_group_cs(n),
        cs.components() == match n {
            Some(k) => if k == 1 || k == 3 { k as int } else { 4 },
            None => 4,
        },
{
    match n {
        Some(1) => GroupCs::DeviceGray,
        Some(3) => GroupCs::DeviceRgb,
        _ => GroupCs::DeviceCmyk,
    }
}

/// Detect the blend colour space a source page declares via its `/Group /CS`, so the isolated
/// wrapper group uses a matching space instead of forcing DeviceCMYK. ICC profiles map to a device
/// family by component count.
pub fn detect_group_cs(decl: &GroupDecl) -> (cs: GroupCs)
    ensures
        cs == declared_group_cs(*decl),
        decl matches GroupDecl::Array(n) ==> cs.components() == match n {
            Some(k) => if k == 1 || k == 3 { k as int } else { 4 },
            None => 4,
        },
        decl is Undeclared ==> cs == GroupCs::DeviceCmyk,
{
    match decl {
        GroupDecl::Undeclared => GroupCs::DeviceCmyk,
        GroupDecl::Name(n) => group_cs_for_name(n.as_str()),
        GroupDecl::Array(n) => group_cs_for_components(*n),
    }
}

} // verus!

verus! {

/// The colour of a mark as the writer sees it: the all-separations registration colorant, a
/// process colour (its four CMYK operands, already formatted), or a named spot colorant.
#[derive(Clone, Debug)]
pub enum MarkInk {
    RegistrationAll,
    Process(String),
    Spot(String),
}

/// The resources a surface's marks reference: the `/SepAll` registration colour space, the slug
/// font, and the distinct spot colorants, declared as `/Spot0`, `/Spot1`, ... in this order.
pub struct MarkResources {
    pub sep_all: bool,
    pub font: bool,
    pub spots: Vec<String>,
}

/// The names held by a list of strings.
pub open spec fn names_of(v: Seq<String>) -> Seq<Seq<char>> {
    v.map_values(|s: String| s@)
}

/// Some ink of `inks` is the registration colorant.
pub open spec fn uses_registration(inks: Seq<MarkInk>) -> bool {
    exists|i: int| 0 <= i < inks.len() && #[trigger] inks[i] is RegistrationAll
}

/// The spot list after noting one more ink: a spot name not yet listed is appended.
pub open spec fn note_spot(spots: Seq<Seq<char>>, ink: MarkInk) -> Seq<Seq<char>> {
    match ink {
        MarkInk::Spot(n) => if spots.contains(n@) { spots } else { spots.push(n@) },
        _ => spots,
    }
}

/// The distinct spot colorant names of `inks`, in order of first appearance.
pub open spec fn spot_list(inks: Seq<MarkInk>) -> Seq<Seq<char>>
    decreases inks.len(),
{
    if inks.len() == 0 {
        Seq::empty()
    } else {
        note_spot(spot_list(inks.drop_last()), inks.last())
    }
}

fn contains_name(spots: &Vec<String>, name: &String) -> (b: bool)
    ensures
        b == names_of(spots@).contains(name@),
{
    let mut i: usize = 0;
    while i < spots.len()
        invariant
            i <= spots.len(),
            forall|j: int| 0 <= j < i ==> names_of(spots@)[j] != name@,
        decreases spots.len() - i,
    {
        if spots[i] == *name {
            assert(names_of(spots@)[i as int] == name@);
            return true;
        }
        i = i + 1;
    }
    false
}

fn note_ink(res: &mut MarkResources, ink: &MarkInk)
    ensures
        final(res).sep_all == (old(res).sep_all || *ink is RegistrationAll),
        final(res).font == old(res).font,
        names_of(final(res).spots@) == note_spot(names_of(old(res).spots@), *ink),
{
    match ink {
        MarkInk::RegistrationAll => {
            res.sep_all = true;
        },
        MarkInk::Process(_) => {},
        MarkInk::Spot(name) => {
            if !contains_name(&res.spots, name) {
                res.spots.push(name.clone());
                assert(names_of(res.spots@) =~= names_of(old(res).spots@).push(name@));
            }
        },
    }
}

proof fn scan_step(all: Seq<MarkInk>, i: int)
    requires
        0 <= i < all.len(),
    ensures
        uses_registration(all.take(i + 1)) == (uses_registration(all.take(i)) || all[i] is RegistrationAll),
        spot_list(all.take(i + 1)) == note_spot(spot_list(all.take(i)), all[i]),
{
    let prev = all.take(i);
    let next = all.take(i + 1);
    assert(next.drop_last() =~= prev);
    assert(next.last() == all[i]);
    if uses_registration(next) && !(all[i] is RegistrationAll) {
        let k = choose|k: int| 0 <= k < next.len() && #[trigger] next[k] is RegistrationAll;
        assert(prev[k] == next[k]);
    }
    if uses_registration(prev) {
        let k = choose|k: int| 0 <= k < prev.len() && #[trigger] prev[k] is RegistrationAll;
        assert(prev[k] == next[k]);
    }
    if all[i] is RegistrationAll {
        assert(next[i] is RegistrationAll);
    }
}

/// Scan a surface's marks for the colour spaces and font their operators reference: the inks of
/// its primitives, then those of its text runs (any text run needs the font).
pub fn scan_resources(primitive_inks: &Vec<MarkInk>, text_inks: &Vec<MarkInk>) -> (res: MarkResources)
    ensures
        res.sep_all == uses_registration(primitive_inks@ + text_inks@),
        res.font == (text_inks.len() > 0),
        names_of(res.spots@) == spot_list(primitive_inks@ + text_inks@),
{
    let ghost all = primitive_inks@ + text_inks@;
    let mut res = MarkResources { sep_all: false, font: false, spots: Vec::new() };
    assert(names_of(res.spots@) =~= Seq::<Seq<char>>::empty());
    let mut i: usize = 0;
    while i < primitive_inks.len()
        invariant
            all == primitive_inks@ + text_inks@,
            i <= primitive_inks.len(),
            res.sep_all == uses_registration(all.take(i as int)),
            !res.font,
            names_of(res.spots@) == spot_list(all.take(i as int)),
        decreases primitive_inks.len() - i,
    {
        proof {
            assert(primitive_inks@[i as int] == all[i as int]);
            scan_step(all, i as int);
        }
        note_ink(&mut res, &primitive_inks[i]);
        i = i + 1;
    }
    let mut j: usize = 0;
    while j < text_inks.len()
        invariant
            all == primitive_inks@ + text_inks@,
            j <= text_inks.len(),
            res.sep_all == uses_registration(all.take(primitive_inks.len() + j)),
            !res.font,
            names_of(res.spots@) == spot_list(all.take(primitive_inks.len() + j)),
        decreases text_inks.len() - j,
    {
        proof {
            assert(text_inks@[j as int] == all[primitive_inks.len() + j]);
            scan_step(all, primitive_inks.len() + j);
        }
        note_ink(&mut res, &text_inks[j]);
        j = j + 1;
    }
    assert(all.take(all.len() as int) =~= all);
    res.font = text_inks.len() > 0;
    res
}

/// `i` is the first position of `name` in `spots`.
pub open spec fn is_first_index(spots: Seq<Seq<char>>, name: Seq<char>, i: int) -> bool {
    &&& 0 <= i < spots.len()
    &&& spots[i] == name
    &&& forall|j: int| 0 <= j < i ==> spots[j] != name
}

/// The resource index of spot colorant `name`: its first position in `spots`, or 0 when absent.
pub open spec fn spot_index_spec(spots: Seq<Seq<char>>, name: Seq<char>) -> int {
    if exists|i: int| is_first_index(spots, name, i) {
        choose|i: int| is_first_index(spots, name, i)
    } else {
        0
    }
}

proof fn first_index_unique(spots: Seq<Seq<char>>, name: Seq<char>, i: int, k: int)
    requires
        is_first_index(spots, name, i),
        is_first_index(spots, name, k),
    ensures
        i == k,
{
    if i < k {
        assert(spots[i] != name);
    } else if k < i {
        assert(spots[k] != name);
    }
}

/// The resource index of spot colorant `name`: its first position in `spots`, or 0 when absent.
pub fn spot_index(spots: &Vec<String>, name: &String) -> (i: usize)
    ensures
        i == spot_index_spec(names_of(spots@), name@),
{
    let ghost names = names_of(spots@);
    let mut i: usize = 0;
    while i < spots.len()
        invariant
            names == names_of(spots@),
            i <= spots.len(),
            forall|j: int| 0 <= j < i ==> names[j] != name@,
        decreases spots.len() - i,
    {
        if spots[i] == *name {
            proof {
                assert(is_first_index(names, name@, i as int));
                let c = choose|k: int| is_first_index(names, name@, k);
                first_index_unique(names, name@, i as int, c);
            }
            return i;
        }
        i = i + 1;
    }
    proof {
        assert forall|k: int| !is_first_index(names, name@, k) by {
            if 0 <= k < names.len() {
                assert(names[k] != name@);
            }
        }
    }
    0
}

/// The scanned spot list names every spot colorant of the marks exactly once and nothing else.
pub proof fn spot_list_is_distinct_and_complete(inks: Seq<MarkInk>)
    ensures
        forall|i: int, j: int|
            0 <= i < j < spot_list(inks).len() ==> #[trigger] spot_list(inks)[i] != #[trigger] spot_list(inks)[j],
        forall|k: int| 0 <= k < inks.len() && #[trigger] inks[k] is Spot ==> spot_list(inks).contains(inks[k]->Spot_0@),
        forall|s: Seq<char>|
            #[trigger] spot_list(inks).contains(s) ==> exists|k: int|
                0 <= k < inks.len() && #[trigger] inks[k] is Spot && inks[k]->Spot_0@ == s,
    decreases inks.len(),
{
    if inks.len() > 0 {
        let init = inks.drop_last();
        spot_list_is_distinct_and_complete(init);
        let prev = spot_list(init);
        let cur = spot_list(inks);
        assert(cur == note_spot(prev, inks.last()));
        assert forall|k: int| 0 <= k < inks.len() && #[trigger] inks[k] is Spot implies cur.contains(inks[k]->Spot_0@) by {
            if k < init.len() {
                assert(init[k] == inks[k]);
                let i = choose|i: int| 0 <= i < prev.len() && prev[i] == inks[k]->Spot_0@;
                assert(cur[i] == prev[i]);
            } else {
                let n = inks[k]->Spot_0@;
                if !prev.contains(n) {
                    assert(cur[prev.len() as int] == n);
                }
            }
        }
        assert forall|s: Seq<char>| #[trigger] cur.contains(s) implies exists|k: int|
            0 <= k < inks.len() && #[trigger] inks[k] is Spot && inks[k]->Spot_0@ == s by {
            if prev.contains(s) {
                let k = choose|k: int| 0 <= k < init.len() && #[trigger] init[k] is Spot && init[k]->Spot_0@ == s;
                assert(inks[k] == init[k]);
            } else {
                let i = choose|i: int| 0 <= i < cur.len() && cur[i] == s;
                assert(i == prev.len());
                assert(inks[inks.len() - 1] is Spot);
            }
        }
    }
}

/// Each spot ink's colour operator names a declared resource: within the scanned spot list, the
/// operator's `/Spot{i}` index is the position of that ink's own colorant.
pub proof fn spot_ops_name_declared_resources(inks: Seq<MarkInk>, k: int)
    requires
        0 <= k < inks.len(),
        inks[k] is Spot,
    ensures
        0 <= spot_index_spec(spot_list(inks), inks[k]->Spot_0@) < spot_list(inks).len(),
        spot_list(inks)[spot_index_spec(spot_list(inks), inks[k]->Spot_0@)] == inks[k]->Spot_0@,
{
    spot_list_is_distinct_and_complete(inks);
    let s = spot_list(inks);
    let n = inks[k]->Spot_0@;
    assert(s.contains(n));
    let i = choose|i: int| 0 <= i < s.len() && s[i] == n;
    assert(is_first_index(s, n, i)) by {
        assert forall|j: int| 0 <= j < i implies s[j] != n by {
            assert(s[j] != s[i]);
        }
    }
}

/// The content-stream colour operator for an ink; `stroke` selects the stroking (upper-case)
/// operators, otherwise the non-stroking (lower-case) ones.
pub open spec fn color_op_spec(ink: MarkInk, stroke: bool, spots: Seq<Seq<char>>) -> Seq<char> {
    match ink {
        MarkInk::RegistrationAll => if stroke { "/SepAll CS 1 SCN"@ } else { "/SepAll cs 1 scn"@ },
        MarkInk::Process(comps) => comps@ + if stroke { " K"@ } else { " k"@ },
        MarkInk::Spot(n) => "/Spot"@ + crate::text::decimal_spec(spot_index_spec(spots, n@) as nat) + if stroke {
            " CS 1 SCN"@
        } else {
            " cs 1 scn"@
        },
    }
}

/// The content-stream colour operator for an ink (`stroke` selects upper/lower-case operators);
/// a spot colorant refers to its `/Spot{i}` resource.
pub fn color_op(ink: &MarkInk, stroke: bool, res: &MarkResources) -> (op: String)
    ensures
        op@ == color_op_spec(*ink, stroke, names_of(res.spots@)),
{
    match ink {
        MarkInk::RegistrationAll => {
            if stroke {
                String::from_str("/SepAll CS 1 SCN")
            } else {
                String::from_str("/SepAll cs 1 scn")
            }
        },
        MarkInk::Process(comps) => {
            let mut op = comps.clone();
            if stroke {
                op.append(" K");
            } else {
                op.append(" k");
            }
            op
        },
        MarkInk::Spot(name) => {
            let i = spot_index(&res.spots, name);
            let mut op = String::from_str("/Spot");
            let digits = crate::text::decimal(i);
            op.append(digits.as_str());
            if stroke {
                op.append(" CS 1 SCN");
            } else {
                op.append(" cs 1 scn");
            }
            op
        },
    }
}

} // verus!

verus! {

/// A slug text run as the operand of `Tj`: its WinAnsi bytes escaped inside `( ... )`.
pub open spec fn text_operand_spec(text: Seq<char>) -> Seq<char> {
    seq!['('] + crate::text::escape_spec(text.map_values(|c: char| crate::text::winansi_byte(c))) + seq![')']
}

/// A slug text run as the literal-string operand of `Tj`: transcoded to the slug font's WinAnsi
/// encoding and escaped, inside parentheses.
pub fn text_operand(text: &str) -> (op: String)
    ensures
        op@ == text_operand_spec(text@),
{
    let bytes = crate::text::to_winansi(text);
    let body = crate::text::escape_pdf_bytes(bytes.as_slice());
    let mut op = String::from_str("(");
    op.append(body.as_str());
    op.append(")");
    proof {
        reveal_strlit("(");
        reveal_strlit(")");
    }
    assert(op@ =~= text_operand_spec(text@));
    op
}

/// The isolated transparency group dictionary wrapped around a placed page.
pub open spec fn group_dict_spec(cs: GroupCs) -> Seq<char> {
    "<< /Type /Group /S /Transparency /I true /CS /"@ + cs.name_chars() + " >>"@
}

/// The isolated transparency group dictionary wrapped around a placed page, in the blend space
/// `cs`.
pub fn group_dict(cs: GroupCs) -> (d: String)
    ensures
        d@ == group_dict_spec(cs),
{
    let mut d = String::from_str("<< /Type /Group /S /Transparency /I true /CS /");
    d.append(cs.pdf_name());
    d.append(" >>");
    d
}

/// A named-spot Separation colour space: the colorant name (PDF-name encoded) with a DeviceCMYK
/// alternate that maps full tint to 100% K.
pub open spec fn separation_spot_spec(name: Seq<u8>) -> Seq<char> {
    "[ /Separation /"@ + crate::text::name_spec(name)
        + " /DeviceCMYK << /FunctionType 2 /Domain [ 0 1 ] /C0 [ 0 0 0 0 ] /C1 [ 0 0 0 1 ] /N 1 >> ]"@
}

/// A named-spot Separation colour space for colorant `name`.
pub fn separation_spot(name: &str) -> (cs: String)
    ensures
        cs@ == separation_spot_spec(name.spec_bytes()),
{
    let mut cs = String::from_str("[ /Separation /");
    let encoded = crate::text::pdf_name_escape(name);
    cs.append(encoded.as_str());
    cs.append(" /DeviceCMYK << /FunctionType 2 /Domain [ 0 1 ] /C0 [ 0 0 0 0 ] /C1 [ 0 0 0 1 ] /N 1 >> ]");
    cs
}

} // verus!
