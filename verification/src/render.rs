use vstd::prelude::*;
use crate::cell_content::CellContent;
use crate::material::Material;

verus! {

/// The character each material shows as in the terminal view.
pub open spec fn char_of(m: Material) -> char {
    match m {
        Material::Sand => '\u{25a0}',
        Material::SandGenerator => 'S',
        Material::Air => ' ',
        Material::Water => '\u{25c9}',
        Material::WaterGenerator => 'W',
        Material::Fire => 'f',
        Material::Smoke => '~',
        Material::Vapor => '|',
        Material::Wood => '=',
    }
}

/// The text of the grid from cell `i` on, with `col` cells of the current
/// row already printed: rows of `width` characters separated by newlines,
/// without a trailing newline.
pub open spec fn render_from(area: Seq<CellContent>, width: int, i: int, col: int) -> Seq<char>
    decreases 2 * (area.len() - i) + if col == width {
        1int
    } else {
        0int
    },
    when 0 <= i && width >= 1 && 0 <= col <= width
{
    if i >= area.len() {
        Seq::empty()
    } else if col == width {
        seq!['\n'] + render_from(area, width, i, 0)
    } else {
        seq![char_of(area[i].material)] + render_from(area, width, i + 1, col + 1)
    }
}

/// The whole grid as text: rows of `width` characters joined by newlines.
pub open spec fn render_spec(area: Seq<CellContent>, width: int) -> Seq<char> {
    render_from(area, width, 0, 0)
}

/// The character for one cell in the terminal view.
pub fn content_to_char(content: &CellContent) -> (r: char)
    ensures
        r == char_of(content.material),
{
    match content.material {
        Material::Sand => '\u{25a0}',
        Material::SandGenerator => 'S',
        Material::Air => ' ',
        Material::Water => '\u{25c9}',
        Material::WaterGenerator => 'W',
        Material::Fire => 'f',
        Material::Smoke => '~',
        Material::Vapor => '|',
        Material::Wood => '=',
    }
}

/// The one-character text for one cell.
fn content_str(content: &CellContent) -> (r: &'static str)
    ensures
        r@ == seq![char_of(content.material)],
{
    let r: &'static str = match content.material {
        Material::Sand => "\u{25a0}",
        Material::SandGenerator => "S",
        Material::Air => " ",
        Material::Water => "\u{25c9}",
        Material::WaterGenerator => "W",
        Material::Fire => "f",
        Material::Smoke => "~",
        Material::Vapor => "|",
        Material::Wood => "=",
    };
    proof {
        reveal_strlit("\u{25a0}");
        reveal_strlit("S");
        reveal_strlit(" ");
        reveal_strlit("\u{25c9}");
        reveal_strlit("W");
        reveal_strlit("f");
        reveal_strlit("~");
        reveal_strlit("|");
        reveal_strlit("=");
        assert(r@ =~= seq![char_of(content.material)]);
    }
    r
}

/// Renders the cells as rows of `width` characters joined by newlines, the
/// way the terminal front-end draws a grid.
pub fn get_as_string(area: &Vec<CellContent>, width: usize) -> (r: String)
    requires
        width >= 1,
    ensures
        r@ == render_spec(area@, width as int),
{
    let n = area.len();
    let mut s = String::new();
    let mut i: usize = 0;
    let mut col: usize = 0;
    proof {
        reveal_strlit("\n");
    }
    while i < n
        invariant
            width >= 1,
            n == area@.len(),
            i <= n,
            col <= width,
            s@ + render_from(area@, width as int, i as int, col as int) == render_spec(
                area@,
                width as int,
            ),
        decreases 2 * (n - i) + if col == width {
            1int
        } else {
            0int
        },
    {
        if col == width {
            s.append("\n");
            proof {
                reveal_strlit("\n");
                assert("\n"@ =~= seq!['\n']);
            }
            col = 0;
        } else {
            let c = &area[i];
            s.append(content_str(c));
            i = i + 1;
            col = col + 1;
        }
    }
    s
}

/// The canonical screen colour of each material, as red, green, blue and
/// alpha bytes.
pub open spec fn rgba_spec(m: Material) -> Seq<u8> {
    match m {
        Material::Air => seq![0xffu8, 0xffu8, 0xffu8, 0x00u8],
        Material::Water => seq![0x00u8, 0x00u8, 0xffu8, 0xffu8],
        Material::Sand => seq![0xffu8, 0xffu8, 0x00u8, 0xffu8],
        Material::WaterGenerator => seq![0x00u8, 0xffu8, 0xffu8, 0xffu8],
        Material::SandGenerator => seq![0xffu8, 0x00u8, 0xffu8, 0xffu8],
        Material::Fire => seq![0xffu8, 0x00u8, 0x00u8, 0xffu8],
        Material::Smoke => seq![0x7fu8, 0x7fu8, 0x7fu8, 0xffu8],
        Material::Vapor => seq![0x7fu8, 0x7fu8, 0xffu8, 0xffu8],
        Material::Wood => seq![0xdeu8, 0xb8u8, 0x87u8, 0xffu8],
    }
}

/// The colour a cell is drawn with.
pub fn cell_to_color(cell: &CellContent) -> (r: [u8; 4])
    ensures
        r@ == rgba_spec(cell.material),
{
    let r: [u8; 4] = match cell.material {
        Material::Air => [0xff, 0xff, 0xff, 0x00],
        Material::Water => [0x00, 0x00, 0xff, 0xff],
        Material::Sand => [0xff, 0xff, 0x00, 0xff],
        Material::WaterGenerator => [0x00, 0xff, 0xff, 0xff],
        Material::SandGenerator => [0xff, 0x00, 0xff, 0xff],
        Material::Fire => [0xff, 0x00, 0x00, 0xff],
        Material::Smoke => [0x7f, 0x7f, 0x7f, 0xff],
        Material::Vapor => [0x7f, 0x7f, 0xff, 0xff],
        Material::Wood => [0xde, 0xb8, 0x87, 0xff],
    };
    proof {
        assert(r@ =~= rgba_spec(cell.material));
    }
    r
}

/// The flat byte encoding of a material in a stored grid image.
pub open spec fn byte_of(m: Material) -> u8 {
    match m {
        Material::Sand => 0,
        Material::SandGenerator => 1,
        Material::Water => 2,
        Material::WaterGenerator => 3,
        Material::Air => 4,
        Material::Fire => 5,
        Material::Smoke => 6,
        Material::Vapor => 7,
        Material::Wood => 8,
    }
}

/// Encodes one material as its storage byte.
pub fn material_to_byte(m: &Material) -> (r: u8)
    ensures
        r == byte_of(*m),
{
    match m {
        Material::Sand => 0,
        Material::SandGenerator => 1,
        Material::Water => 2,
        Material::WaterGenerator => 3,
        Material::Air => 4,
        Material::Fire => 5,
        Material::Smoke => 6,
        Material::Vapor => 7,
        Material::Wood => 8,
    }
}

/// Decodes one storage byte; every byte above eight is invalid and is
/// rejected.
pub fn material_from_byte(b: u8) -> (r: Option<Material>)
    ensures
        match r {
            Some(m) => byte_of(m) == b,
            None => b > 8,
        },
        b <= 8 ==> r is Some,
{
    match b {
        0 => Some(Material::Sand),
        1 => Some(Material::SandGenerator),
        2 => Some(Material::Water),
        3 => Some(Material::WaterGenerator),
        4 => Some(Material::Air),
        5 => Some(Material::Fire),
        6 => Some(Material::Smoke),
        7 => Some(Material::Vapor),
        8 => Some(Material::Wood),
        _ => None,
    }
}

/// No two materials share a storage byte, so decoding an encoded material
/// gives the material back.
pub proof fn lemma_byte_injective(m: Material)
    ensures
        forall|m2: Material| byte_of(m2) == byte_of(m) ==> m2 == m,
{
}

} // verus!
