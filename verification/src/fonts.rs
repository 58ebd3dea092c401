use vstd::prelude::*;

use crate::codec::{decode_base64, standard_base64_decode};
use crate::model::PdfFontDef;

verus! {

#[verifier::external_type_specification]
#[verifier::external_body]
pub struct ExFont(krilla::text::Font);

/// Whether `krilla::text::Font::new` accepts `data` as a font file with face `index`.
pub uninterp spec fn font_data_loads(data: Seq<u8>, index: u32) -> bool;

/// A krilla font together with what it was read from: the bytes of the font file and the
/// face index.
pub struct LoadedFont {
    font: krilla::text::Font,
    source: Ghost<(Seq<u8>, u32)>,
}

impl LoadedFont {
    /// The font file's bytes and the face index this font was read from.
    pub closed spec fn source(&self) -> (Seq<u8>, u32) {
        self.source@
    }

    /// The krilla font.
    pub closed spec fn spec_font(&self) -> krilla::text::Font {
        self.font
    }

    /// The krilla font, for drawing.
    pub fn font(&self) -> (font: &krilla::text::Font)
        ensures
            *font == self.spec_font(),
    {
        &self.font
    }
}

/// Calls `krilla::text::Font::new`, which returns `None` where the face index is invalid or
/// the data cannot be read as a font, and otherwise a font read from exactly these bytes and
/// this face. The contract claims that the outcome is `Some` exactly when `font_data_loads`
/// holds of the bytes and index, and records the bytes and index as the font's source;
/// nothing else is said of the font's contents.
#[verifier::external_body]
pub(crate) fn new_font(data: Vec<u8>, index: u32) -> (font: Option<LoadedFont>)
    ensures
        font is Some <==> font_data_loads(data@, index),
        font matches Some(f) ==> f.source() == (data@, index),
{
    let source = Ghost((data@, index));
    match krilla::text::Font::new(std::sync::Arc::new(data).into(), index) {
        Some(font) => Some(LoadedFont { font, source }),
        None => None,
    }
}

/// Reads one face of a font file, as the renderer does for the fonts text layout picks;
/// `None` where the bytes or the face index are not a readable font.
pub fn load_font_face(data: Vec<u8>, index: u32) -> (font: Option<LoadedFont>)
    ensures
        font is Some <==> font_data_loads(data@, index),
        font matches Some(f) ==> f.source() == (data@, index),
{
    new_font(data, index)
}

/// A font definition loads when its Base64 text decodes and the bytes read as a font (face 0).
pub open spec fn font_def_loads(data: Seq<char>) -> bool {
    match standard_base64_decode(data) {
        Some(bytes) => font_data_loads(bytes, 0),
        None => false,
    }
}

/// The names of the definitions that load, in the order given.
pub open spec fn loaded_font_names(defs: Seq<(String, PdfFontDef)>) -> Seq<Seq<char>>
    decreases defs.len(),
{
    if defs.len() == 0 {
        Seq::empty()
    } else {
        let rest = loaded_font_names(defs.drop_last());
        if font_def_loads(defs.last().1.data@) {
            rest.push(defs.last().0@)
        } else {
            rest
        }
    }
}

/// What the fonts of the definitions that load are read from, in the same order as
/// `loaded_font_names`: each definition's decoded bytes, face 0.
pub open spec fn loaded_font_sources(defs: Seq<(String, PdfFontDef)>) -> Seq<(Seq<u8>, u32)>
    decreases defs.len(),
{
    if defs.len() == 0 {
        Seq::empty()
    } else {
        let rest = loaded_font_sources(defs.drop_last());
        if font_def_loads(defs.last().1.data@) {
            rest.push((standard_base64_decode(defs.last().1.data@).unwrap(), 0u32))
        } else {
            rest
        }
    }
}

/// The position of the last name equal to `name`, or -1 where there is none.
pub open spec fn last_position(names: Seq<Seq<char>>, name: Seq<char>) -> int
    decreases names.len(),
{
    if names.len() == 0 {
        -1
    } else if names.last() == name {
        names.len() - 1
    } else {
        last_position(names.drop_last(), name)
    }
}

/// Which loaded font a text element naming `name` is drawn with: the font of that name
/// (the last one loaded under it), else the fallback, the first font loaded.
pub open spec fn chosen_font(names: Seq<Seq<char>>, name: Seq<char>) -> int {
    if last_position(names, name) >= 0 {
        last_position(names, name)
    } else {
        0
    }
}

/// A text element naming a definition that loads, and that no later definition of the same
/// name overrides, is drawn with the font read from that definition: its decoded bytes,
/// face 0. Never with the fallback, never with another definition's font.
pub proof fn lemma_named_font_is_drawn(defs: Seq<(String, PdfFontDef)>, i: int)
    requires
        0 <= i < defs.len(),
        font_def_loads(defs[i].1.data@),
        forall|j: int|
            i < j < defs.len() && (#[trigger] defs[j]).0@ == defs[i].0@ ==> !font_def_loads(
                defs[j].1.data@,
            ),
    ensures
        0 <= last_position(loaded_font_names(defs), defs[i].0@) < loaded_font_names(defs).len(),
        chosen_font(loaded_font_names(defs), defs[i].0@) == last_position(
            loaded_font_names(defs),
            defs[i].0@,
        ),
        loaded_font_sources(defs)[chosen_font(loaded_font_names(defs), defs[i].0@)] == (
            standard_base64_decode(defs[i].1.data@).unwrap(),
            0u32,
        ),
    decreases defs.len(),
{
    let name = defs[i].0@;
    let init = defs.drop_last();
    lemma_loaded_lengths(init);
    let names = loaded_font_names(init);
    let sources = loaded_font_sources(init);
    if i < defs.len() - 1 {
        assert(init[i] == defs[i]);
        assert forall|j: int|
            i < j < init.len() && (#[trigger] init[j]).0@ == init[i].0@ implies !font_def_loads(
            init[j].1.data@,
        ) by {
            assert(init[j] == defs[j]);
        }
        lemma_named_font_is_drawn(init, i);
        if font_def_loads(defs.last().1.data@) {
            let all = names.push(defs.last().0@);
            assert(defs.last() == defs[defs.len() - 1]);
            assert(all.last() != name);
            assert(all.drop_last() == names);
        }
    } else {
        assert(loaded_font_names(defs) == names.push(name));
    }
}

/// When no definition that loads carries the name a text element asks for, the element is
/// drawn with the fallback: the font read from the first definition that loads.
pub proof fn lemma_unknown_name_uses_first_loaded(
    defs: Seq<(String, PdfFontDef)>,
    name: Seq<char>,
    i: int,
)
    requires
        0 <= i < defs.len(),
        font_def_loads(defs[i].1.data@),
        forall|j: int| 0 <= j < i ==> !font_def_loads((#[trigger] defs[j]).1.data@),
        forall|j: int|
            0 <= j < defs.len() && font_def_loads((#[trigger] defs[j]).1.data@) ==> defs[j].0@
                != name,
    ensures
        last_position(loaded_font_names(defs), name) == -1,
        chosen_font(loaded_font_names(defs), name) == 0,
        loaded_font_sources(defs).len() > 0,
        loaded_font_sources(defs)[0] == (standard_base64_decode(defs[i].1.data@).unwrap(), 0u32),
    decreases defs.len(),
{
    let init = defs.drop_last();
    lemma_loaded_lengths(init);
    assert(defs.last() == defs[defs.len() - 1]);
    if i < defs.len() - 1 {
        assert(init[i] == defs[i]);
        assert forall|j: int| 0 <= j < i implies !font_def_loads((#[trigger] init[j]).1.data@) by {
            assert(init[j] == defs[j]);
        }
        assert forall|j: int|
            0 <= j < init.len() && font_def_loads((#[trigger] init[j]).1.data@) implies init[j].0@
            != name by {
            assert(init[j] == defs[j]);
        }
        lemma_unknown_name_uses_first_loaded(init, name, i);
        if font_def_loads(defs.last().1.data@) {
            assert(defs[defs.len() - 1].0@ != name);
            let names = loaded_font_names(init).push(defs.last().0@);
            assert(names.drop_last() == loaded_font_names(init));
            assert(names.last() != name);
        }
    } else {
        assert forall|j: int| 0 <= j < init.len() implies !font_def_loads((#[trigger] init[j]).1.data@) by {
            assert(init[j] == defs[j]);
        }
        lemma_none_loaded(init);
        assert(defs[defs.len() - 1].0@ != name);
        let names = loaded_font_names(init).push(defs.last().0@);
        assert(names.drop_last() == loaded_font_names(init));
        assert(names.last() != name);
        assert(last_position(loaded_font_names(init), name) == -1);
    }
}

/// Where no definition loads, no font is loaded.
proof fn lemma_none_loaded(defs: Seq<(String, PdfFontDef)>)
    requires
        forall|j: int| 0 <= j < defs.len() ==> !font_def_loads((#[trigger] defs[j]).1.data@),
    ensures
        loaded_font_names(defs).len() == 0,
        loaded_font_sources(defs).len() == 0,
    decreases defs.len(),
{
    if defs.len() > 0 {
        let init = defs.drop_last();
        assert forall|j: int| 0 <= j < init.len() implies !font_def_loads((#[trigger] init[j]).1.data@) by {
            assert(init[j] == defs[j]);
        }
        lemma_none_loaded(init);
        assert(defs.last() == defs[defs.len() - 1]);
    }
}

/// Loading goes definition by definition: one that does not load leaves the loaded fonts as
/// they were; one that loads adds its name and the font read from its decoded bytes
/// (face 0) after them.
pub proof fn lemma_load_step(defs: Seq<(String, PdfFontDef)>, k: int)
    requires
        0 <= k < defs.len(),
    ensures
        !font_def_loads(defs[k].1.data@) ==> {
            &&& loaded_font_names(defs.take(k + 1)) == loaded_font_names(defs.take(k))
            &&& loaded_font_sources(defs.take(k + 1)) == loaded_font_sources(defs.take(k))
        },
        font_def_loads(defs[k].1.data@) ==> {
            &&& loaded_font_names(defs.take(k + 1)) == loaded_font_names(defs.take(k)).push(
                defs[k].0@,
            )
            &&& loaded_font_sources(defs.take(k + 1)) == loaded_font_sources(defs.take(k)).push(
                (standard_base64_decode(defs[k].1.data@).unwrap(), 0u32),
            )
        },
{
    assert(defs.take(k + 1).drop_last() == defs.take(k));
    assert(defs.take(k + 1).last() == defs[k]);
}

/// The names and the sources of the loaded fonts run in parallel.
proof fn lemma_loaded_lengths(defs: Seq<(String, PdfFontDef)>)
    ensures
        loaded_font_names(defs).len() == loaded_font_sources(defs).len(),
    decreases defs.len(),
{
    if defs.len() > 0 {
        lemma_loaded_lengths(defs.drop_last());
    }
}

/// The fonts of a document that loaded, each under its name.
pub struct FontTable {
    names: Vec<String>,
    fonts: Vec<LoadedFont>,
}

impl FontTable {
    #[verifier::type_invariant]
    spec fn well_formed(self) -> bool {
        self.names.len() == self.fonts.len()
    }

    /// The names of the loaded fonts, in loading order.
    pub closed spec fn names(&self) -> Seq<Seq<char>> {
        self.names@.map_values(|s: String| s@)
    }

    /// The loaded fonts, in the same order as `names`.
    pub closed spec fn fonts(&self) -> Seq<LoadedFont> {
        self.fonts@
    }

    /// What each loaded font was read from, in the same order as `names`.
    pub open spec fn sources(&self) -> Seq<(Seq<u8>, u32)> {
        self.fonts().map_values(|f: LoadedFont| f.source())
    }

    /// Decodes and loads each font definition in turn; a definition whose text is not Base64
    /// or whose bytes are not a font is skipped. Each loaded font stands under its
    /// definition's name and is read from its definition's decoded bytes, face 0.
    pub fn load(defs: &Vec<(String, PdfFontDef)>) -> (table: FontTable)
        ensures
            table.names() == loaded_font_names(defs@),
            table.sources() == loaded_font_sources(defs@),
            table.names().len() == table.fonts().len(),
    {
        let mut names: Vec<String> = Vec::new();
        let mut fonts: Vec<LoadedFont> = Vec::new();
        let mut i: usize = 0;
        while i < defs.len()
            invariant
                i <= defs.len(),
                names.len() == fonts.len(),
                names@.map_values(|s: String| s@) == loaded_font_names(defs@.take(i as int)),
                fonts@.map_values(|f: LoadedFont| f.source()) == loaded_font_sources(
                    defs@.take(i as int),
                ),
            decreases defs.len() - i,
        {
            let ghost names_before = names@.map_values(|s: String| s@);
            let ghost sources_before = fonts@.map_values(|f: LoadedFont| f.source());
            assert(defs@.take(i + 1).drop_last() == defs@.take(i as int));
            let (name, def) = &defs[i];
            assert(defs@.take(i + 1).last() == defs@[i as int]);
            match decode_base64(&def.data) {
                Some(bytes) => {
                    let ghost decoded = bytes@;
                    match new_font(bytes, 0) {
                        Some(font) => {
                            names.push(name.clone());
                            fonts.push(font);
                            assert(names@.map_values(|s: String| s@) == names_before.push(name@));
                            assert(fonts@.map_values(|f: LoadedFont| f.source())
                                == sources_before.push((decoded, 0u32)));
                        },
                        None => {},
                    }
                },
                None => {},
            }
            i = i + 1;
        }
        assert(defs@.take(defs.len() as int) == defs@);
        FontTable { names, fonts }
    }

    /// How many fonts loaded.
    pub fn len(&self) -> (n: usize)
        ensures
            n == self.names().len(),
    {
        self.names.len()
    }

    /// The font a text element naming `name` is drawn with: the loaded font of that name,
    /// else the fallback font (the first loaded), else none when no font loaded.
    pub fn resolve(&self, name: &String) -> (font: Option<&LoadedFont>)
        ensures
            font is Some <==> self.names().len() > 0,
            font matches Some(f) ==> *f == self.fonts()[chosen_font(self.names(), name@)],
            font matches Some(f) ==> f.source() == self.sources()[chosen_font(self.names(), name@)],
    {
        proof {
            use_type_invariant(self);
        }
        let mut j: usize = self.names.len();
        assert(self.names().take(j as int) == self.names());
        while j > 0
            invariant
                j <= self.names.len(),
                self.names.len() == self.fonts.len(),
                last_position(self.names(), name@) == last_position(
                    self.names().take(j as int),
                    name@,
                ),
            decreases j,
        {
            let ghost prefix = self.names().take(j as int);
            assert(prefix.drop_last() == self.names().take(j - 1));
            if self.names[j - 1] == *name {
                return Some(&self.fonts[j - 1]);
            }
            j = j - 1;
        }
        if self.fonts.len() > 0 {
            Some(&self.fonts[0])
        } else {
            None
        }
    }
}

} // verus!
