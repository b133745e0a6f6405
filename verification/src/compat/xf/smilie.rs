//! XenForo smilies: the list the forum defines, and their HTML.
use vstd::prelude::*;
use crate::text::{decimal, parse_unsigned, parse_unsigned_exec, push_decimal, push_str, split_whitespace, words};

verus! {

/// The size of a smilie drawn from a sprite sheet.
#[derive(Clone, Copy, Debug)]
pub struct SpriteParams {
    pub h: usize,
    pub w: usize,
}

/// One smilie: the text it replaces and the image it shows.
#[derive(Debug)]
pub struct Smilie {
    pub title: String,
    pub replace: String,
    pub image_url: String,
    pub sprite_params: Option<SpriteParams>,
}

/// The value of a smilie, with strings as character sequences.
pub struct SmilieV {
    pub title: Seq<char>,
    pub replace: Seq<char>,
    pub image_url: Seq<char>,
    pub sprite_params: Option<SpriteParams>,
}

impl View for Smilie {
    type V = SmilieV;

    open spec fn view(&self) -> SmilieV {
        SmilieV {
            title: self.title@,
            replace: self.replace@,
            image_url: self.image_url@,
            sprite_params: self.sprite_params,
        }
    }
}

/// A smilie definition as the forum's database holds it: its title, the
/// white-space separated texts it replaces, its image, whether it is drawn from
/// a sprite sheet (mode 1) and the sheet's height and width as text.
#[derive(Debug)]
pub struct SmilieRow {
    pub title: String,
    pub smilie_text: String,
    pub image_url: String,
    pub sprite_mode: u8,
    pub sprite_h: Option<String>,
    pub sprite_w: Option<String>,
}

/// The image shown in place of a sprite: a transparent pixel, the sprite being
/// the background.
pub const SPRITE_PLACEHOLDER: &'static str =
    "data:image/gif;base64,R0lGODlhAQABAIAAAAAAAP///yH5BAEAAAAALAAAAAABAAEAAAIBRAA7";

/// The text of an optional string.
pub open spec fn opt_view(s: Option<&str>) -> Option<Seq<char>> {
    match s {
        Some(t) => Some(t@),
        None => None,
    }
}

/// Sprite sizes from a height and a width given as text: both read as `usize`
/// numerals, else 0 by 0.
pub open spec fn sprite_from(h: Option<Seq<char>>, w: Option<Seq<char>>) -> SpriteParams {
    match (h, w) {
        (Some(h), Some(w)) => match (parse_unsigned(h, usize::MAX as nat), parse_unsigned(w, usize::MAX as nat)) {
            (Some(a), Some(b)) => SpriteParams { h: a as usize, w: b as usize },
            _ => SpriteParams { h: 0, w: 0 },
        },
        _ => SpriteParams { h: 0, w: 0 },
    }
}

impl SpriteParams {
    /// Sprite sizes from the `h` and `w` strings of a sprite's parameters
    /// (`sprite_from`).
    pub fn from_fields(h: Option<&str>, w: Option<&str>) -> (p: SpriteParams)
        ensures
            p == sprite_from(opt_view(h), opt_view(w)),
    {
        if let (Some(h), Some(w)) = (h, w) {
            let a = parse_unsigned_exec(h, usize::MAX as u64);
            let b = parse_unsigned_exec(w, usize::MAX as u64);
            if let (Some(a), Some(b)) = (a, b) {
                return SpriteParams { h: a as usize, w: b as usize };
            }
        }
        SpriteParams { h: 0, w: 0 }
    }
}

/// The inline style of a smilie: for a sprite, its size and the sheet as
/// background; else nothing.
pub open spec fn smilie_style(image_url: Seq<char>, sprite: Option<SpriteParams>) -> Seq<char> {
    match sprite {
        Some(sp) => "width: "@ + decimal(sp.w as nat) + "px; height: "@ + decimal(sp.h as nat) + "px; background: url("@
            + image_url + ") no-repeat 0 0; background-size: contain;"@,
        None => Seq::empty(),
    }
}

/// The HTML of a smilie: an image of the smilie (the placeholder for a sprite)
/// with its style, the replaced text as alternative and the title and text as
/// title. The texts go in as they stand.
pub open spec fn smilie_html(s: SmilieV) -> Seq<char> {
    let src = if s.sprite_params is Some { SPRITE_PLACEHOLDER@ } else { s.image_url };
    "<img src=\""@ + src + "\" class=\"smilie\" style=\""@ + smilie_style(s.image_url, s.sprite_params) + "\" alt=\""@
        + s.replace + "\" title=\""@ + s.title + "   "@ + s.replace + "\" loading=\"lazy\" />"@
}

impl Smilie {
    /// The smilie's HTML (`smilie_html`).
    pub fn to_html(&self) -> (r: String)
        ensures
            r@ == smilie_html(self@),
    {
        let mut r = String::new();
        push_str(&mut r, "<img src=\"");
        match &self.sprite_params {
            Some(_) => push_str(&mut r, SPRITE_PLACEHOLDER),
            None => push_str(&mut r, self.image_url.as_str()),
        }
        push_str(&mut r, "\" class=\"smilie\" style=\"");
        match &self.sprite_params {
            Some(sp) => {
                push_str(&mut r, "width: ");
                push_decimal(&mut r, sp.w as u128);
                push_str(&mut r, "px; height: ");
                push_decimal(&mut r, sp.h as u128);
                push_str(&mut r, "px; background: url(");
                push_str(&mut r, self.image_url.as_str());
                push_str(&mut r, ") no-repeat 0 0; background-size: contain;");
            },
            None => {},
        }
        push_str(&mut r, "\" alt=\"");
        push_str(&mut r, self.replace.as_str());
        push_str(&mut r, "\" title=\"");
        push_str(&mut r, self.title.as_str());
        push_str(&mut r, "   ");
        push_str(&mut r, self.replace.as_str());
        push_str(&mut r, "\" loading=\"lazy\" />");
        r
    }
}

/// The sprite of a row: its sizes where it is drawn from a sprite sheet.
pub open spec fn row_sprite(r: SmilieRow) -> Option<SpriteParams> {
    if r.sprite_mode == 1 {
        Some(sprite_from(
            match r.sprite_h { Some(h) => Some(h@), None => None },
            match r.sprite_w { Some(w) => Some(w@), None => None },
        ))
    } else {
        None
    }
}

/// The smilies of one row: one for each white-space separated text it replaces.
pub open spec fn row_smilies(r: SmilieRow) -> Seq<SmilieV> {
    words(r.smilie_text@).map_values(|t: Seq<char>| SmilieV {
        title: r.title@,
        replace: t,
        image_url: r.image_url@,
        sprite_params: row_sprite(r),
    })
}

/// The smilies of the rows, row by row.
pub open spec fn rows_smilies(rows: Seq<SmilieRow>) -> Seq<SmilieV>
    decreases rows.len(),
{
    if rows.len() == 0 {
        Seq::empty()
    } else {
        rows_smilies(rows.drop_last()) + row_smilies(rows.last())
    }
}

/// The smilies that the forum's smilie definitions make, in the order of the
/// definitions (`rows_smilies`).
pub fn smilies_from_rows(rows: &[SmilieRow]) -> (v: Vec<Smilie>)
    ensures
        v@.len() == rows_smilies(rows@).len(),
        forall|k: int| 0 <= k < v@.len() ==> #[trigger] v@[k]@ == rows_smilies(rows@)[k],
{
    let mut v: Vec<Smilie> = Vec::new();
    let mut i: usize = 0;
    while i < rows.len()
        invariant
            i <= rows@.len(),
            v@.len() == rows_smilies(rows@.take(i as int)).len(),
            forall|k: int| 0 <= k < v@.len() ==> #[trigger] v@[k]@ == rows_smilies(rows@.take(i as int))[k],
        decreases rows@.len() - i,
    {
        let row = &rows[i];
        let sprite_params = if row.sprite_mode == 1 {
            Some(SpriteParams::from_fields(
                match &row.sprite_h { Some(h) => Some(h.as_str()), None => None },
                match &row.sprite_w { Some(w) => Some(w.as_str()), None => None },
            ))
        } else {
            None
        };
        assert(sprite_params == row_sprite(*row));
        let tokens = split_whitespace(row.smilie_text.as_str());
        let ghost before = v@;
        let ghost mine = row_smilies(*row);
        let mut j: usize = 0;
        while j < tokens.len()
            invariant
                j <= tokens@.len(),
                tokens@.len() == mine.len(),
                mine == row_smilies(*row),
                forall|k: int| 0 <= k < tokens@.len() ==> #[trigger] tokens@[k]@ == words(row.smilie_text@)[k],
                sprite_params == row_sprite(*row),
                v@.len() == before.len() + j,
                forall|k: int| 0 <= k < before.len() ==> #[trigger] v@[k] == before[k],
                forall|k: int| 0 <= k < j ==> #[trigger] v@[before.len() + k]@ == mine[k],
            decreases tokens@.len() - j,
        {
            v.push(Smilie {
                title: row.title.clone(),
                replace: tokens[j].clone(),
                image_url: row.image_url.clone(),
                sprite_params,
            });
            j = j + 1;
        }
        proof {
            let prev = rows@.take(i as int);
            let next = rows@.take(i + 1);
            assert(next.drop_last() =~= prev);
            assert(next.last() == *row);
            assert forall|k: int| 0 <= k < v@.len() implies #[trigger] v@[k]@ == rows_smilies(next)[k] by {
                if k < before.len() {
                    assert(v@[k] == before[k]);
                } else {
                    assert(v@[before.len() + (k - before.len())]@ == mine[k - before.len()]);
                }
            }
        }
        i = i + 1;
    }
    assert(rows@.take(rows@.len() as int) =~= rows@);
    v
}

} // verus!
