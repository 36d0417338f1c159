//! The built-in 8x8 bitmap font covering ASCII 32 to 127.
use vstd::prelude::*;
use vstd::string::*;
use vstd::utf8::is_ascii_chars;
use crate::pixel::Pixel;
use crate::sprite::{lemma_cell_index, Sprite};

verus! {

broadcast use crate::pixel::group_pixel;

/// The font bitmap, packed. Each group of four characters holds 24 pixels:
/// every character stands for six bits, its code minus 48, the first one
/// the highest. Pixels fill a 128 by 48 canvas column by column, 48 to a
/// column.
pub const FONT: &'static str = "\
    ?Q`0001oOch0o01o@F40o0<AGD4090LAGD<090@A7ch0?00O7Q`0600>00000000\
    O000000nOT0063Qo4d8>?7a14Gno94AA4gno94AaOT0>o3`oO400o7QN00000400\
    Of80001oOg<7O7moBGT7O7lABET024@aBEd714AiOdl717a_=TH013Q>00000000\
    720D000V?V5oB3Q_HdUoE7a9@DdDE4A9@DmoE4A;Hg]oM4Aj8S4D84@`00000000\
    OaPT1000Oa`^13P1@AI[?g`1@A=[OdAoHgljA4Ao?WlBA7l1710007l100000000\
    ObM6000oOfMV?3QoBDD`O7a0BDDH@5A0BDD<@5A0BGeVO5ao@CQR?5Po00000000\
    Oc``000?Ogij70PO2D]??0Ph2DUM@7i`2DTg@7lh2GUj?0TO0C1870T?00000000\
    70<4001o?P<7?1QoHg43O;`h@GT0@:@LB@d0>:@hN@L0@?aoN@<0O7ao0000?000\
    OcH0001SOglLA7mg24TnK7ln24US>0PL24U140PnOgl0>7QgOcH0K71S0000A000\
    00H00000@Dm1S007@DUSg00?OdTnH7YhOfTL<7Yh@Cl0700?@Ah0300700000000\
    <008001QL00ZA41a@6HnI<1i@FHLM81M@@0LG81?O`0nC?Y7?`0ZA7Y300080000\
    O`082000Oh0827mo6>Hn?Wmo?6HnMb11MP08@C11H`08@FP0@@0004@000000000\
    00P00001Oab00003OcKP0006@6=PMgl<@440MglH@000000`@000001P00000000\
    Ob@8@@00Ob@8@Ga13R@8Mga172@8?PAo3R@827QoOb@820@0O`0007`0000007P0\
    O`000P08Od400g`<3V=P0G`673IP0`@3>1`00P@6O`P00g`<O`000GP800000000\
    ?P9PL020O`<`N3R0@E4HC7b0@ET<ATB0@@l6C4B0O`H3N7b0?P01L3R000000020";

/// Width of the font canvas: 16 glyphs of 8 pixels.
pub const FONT_WIDTH: usize = 128;

/// Height of the font canvas: 6 rows of 8-pixel glyphs.
pub const FONT_HEIGHT: usize = 48;

/// The six bits that character `k` of the packed font stands for.
pub open spec fn font_sextet(k: int) -> u32 {
    (FONT@[k] as u32 - 48) as u32
}

/// The 24 pixels of group `g` of the packed font, first pixel in bit 0.
pub open spec fn font_word(g: int) -> u32 {
    font_sextet(4 * g) << 18u32 | font_sextet(4 * g + 1) << 12u32 | font_sextet(4 * g + 2) << 6u32
        | font_sextet(4 * g + 3)
}

/// Whether pixel `n` of the canvas, counted column by column, is lit.
pub open spec fn font_lit(n: int) -> bool {
    font_word(n / 24) & (1u32 << ((n % 24) as u32)) != 0
}

/// The pixel at column `x`, row `y` of the font canvas: opaque white where
/// it is lit, transparent black elsewhere.
pub open spec fn font_pixel(x: int, y: int) -> Pixel {
    if font_lit(x * 48 + y) {
        Pixel::spec_rgba(255, 255, 255, 255)
    } else {
        Pixel::spec_rgba(0, 0, 0, 0)
    }
}

/// The packed font is 1024 characters, each from '0' to 'o'.
proof fn lemma_font_text()
    ensures
        FONT@.len() == 1024,
        is_ascii_chars(FONT@),
        forall|k: int| 0 <= k < 1024 ==> 48 <= (#[trigger] FONT@[k]) as u32 && (FONT@[k] as u32) < 112,
{
    reveal_strlit("\
        ?Q`0001oOch0o01o@F40o0<AGD4090LAGD<090@A7ch0?00O7Q`0600>00000000\
        O000000nOT0063Qo4d8>?7a14Gno94AA4gno94AaOT0>o3`oO400o7QN00000400\
        Of80001oOg<7O7moBGT7O7lABET024@aBEd714AiOdl717a_=TH013Q>00000000\
        720D000V?V5oB3Q_HdUoE7a9@DdDE4A9@DmoE4A;Hg]oM4Aj8S4D84@`00000000\
        OaPT1000Oa`^13P1@AI[?g`1@A=[OdAoHgljA4Ao?WlBA7l1710007l100000000\
        ObM6000oOfMV?3QoBDD`O7a0BDDH@5A0BDD<@5A0BGeVO5ao@CQR?5Po00000000\
        Oc``000?Ogij70PO2D]??0Ph2DUM@7i`2DTg@7lh2GUj?0TO0C1870T?00000000\
        70<4001o?P<7?1QoHg43O;`h@GT0@:@LB@d0>:@hN@L0@?aoN@<0O7ao0000?000\
        OcH0001SOglLA7mg24TnK7ln24US>0PL24U140PnOgl0>7QgOcH0K71S0000A000\
        00H00000@Dm1S007@DUSg00?OdTnH7YhOfTL<7Yh@Cl0700?@Ah0300700000000\
        <008001QL00ZA41a@6HnI<1i@FHLM81M@@0LG81?O`0nC?Y7?`0ZA7Y300080000\
        O`082000Oh0827mo6>Hn?Wmo?6HnMb11MP08@C11H`08@FP0@@0004@000000000\
        00P00001Oab00003OcKP0006@6=PMgl<@440MglH@000000`@000001P00000000\
        Ob@8@@00Ob@8@Ga13R@8Mga172@8?PAo3R@827QoOb@820@0O`0007`0000007P0\
        O`000P08Od400g`<3V=P0G`673IP0`@3>1`00P@6O`P00g`<O`000GP800000000\
        ?P9PL020O`<`N3R0@E4HC7b0@ET<ATB0@@l6C4B0O`H3N7b0?P01L3R000000020");
    assert(forall|k: int| 0 <= k < 1024 ==> 48 <= (#[trigger] FONT@[k]) as u32 && (FONT@[k] as u32) < 112);
    assert(is_ascii_chars(FONT@));
}

/// Decodes the packed font into a 128 by 48 sprite.
pub fn load_font() -> (s: Sprite)
    ensures
        s@.width == FONT_WIDTH,
        s@.height == FONT_HEIGHT,
        s@.mode == crate::sprite::Mode::NORMAL,
        s@.wf(),
        forall|x: int, y: int| 0 <= x < 128 && 0 <= y < 48 ==> #[trigger] s@.at(x, y) == font_pixel(x, y),
{
    let mut sprite = Sprite::new(FONT_WIDTH, FONT_HEIGHT);
    let data = FONT.as_bytes();
    proof {
        lemma_font_text();
        is_ascii_spec_bytes(FONT);
    }
    assert(forall|k: int|
        0 <= k < 1024 ==> (#[trigger] data@[k]) as u32 == FONT@[k] as u32 && 48 <= data@[k] < 112) by {
        assert forall|k: int| 0 <= k < 1024 implies (#[trigger] data@[k]) as u32 == FONT@[k] as u32 && 48
            <= data@[k] < 112 by {
            assert(48 <= FONT@[k] as u32);
        }
    }
    let mut px: usize = 0;
    let mut py: usize = 0;
    let mut b: usize = 0;
    while b < 1024
        invariant
            data@.len() == 1024,
            forall|k: int|
                0 <= k < 1024 ==> (#[trigger] data@[k]) as u32 == FONT@[k] as u32 && 48 <= data@[k] < 112,
            b % 4 == 0,
            b <= 1024,
            px * 48 + py == b / 4 * 24,
            py < 48,
            sprite@.width == 128,
            sprite@.height == 48,
            sprite@.mode == crate::sprite::Mode::NORMAL,
            sprite@.wf(),
            forall|x: int, y: int|
                0 <= x < 128 && 0 <= y < 48 && x * 48 + y < b / 4 * 24 ==> #[trigger] sprite@.at(x, y) == font_pixel(x, y),
        decreases 1024 - b,
    {
        let s1: u32 = (data[b] - 48) as u32;
        let s2: u32 = (data[b + 1] - 48) as u32;
        let s3: u32 = (data[b + 2] - 48) as u32;
        let s4: u32 = (data[b + 3] - 48) as u32;
        let r: u32 = s1 << 18u32 | s2 << 12u32 | s3 << 6u32 | s4;
        assert(r == font_word(b as int / 4));
        let mut i: u32 = 0;
        while i < 24
            invariant
                b < 1024,
                b % 4 == 0,
                r == font_word(b as int / 4),
                i <= 24,
                px * 48 + py == b / 4 * 24 + i,
                py < 48,
                sprite@.width == 128,
                sprite@.height == 48,
                sprite@.mode == crate::sprite::Mode::NORMAL,
                sprite@.wf(),
                forall|x: int, y: int|
                    0 <= x < 128 && 0 <= y < 48 && x * 48 + y < b / 4 * 24 + i ==> #[trigger] sprite@.at(x, y)
                        == font_pixel(x, y),
            decreases 24 - i,
        {
            let k: u8 = if (r & (1u32 << i)) != 0 {
                255
            } else {
                0
            };
            let ghost before = sprite@;
            proof {
                lemma_cell_index(px as int, py as int, 128, 48);
            }
            let res = sprite.set_pixel(px, py, Pixel::rgba(k, k, k, k));
            assert(res is Ok);
            assert forall|x: int, y: int|
                0 <= x < 128 && 0 <= y < 48 && x * 48 + y < b / 4 * 24 + i + 1 implies #[trigger] sprite@.at(x, y)
                    == font_pixel(x, y) by {
                if x == px && y == py {
                    assert((b as int / 4 * 24 + i as int) / 24 == b / 4);
                    assert((b as int / 4 * 24 + i as int) % 24 == i);
                } else {
                    assert(y * 128 + x != py * 128 + px);
                    assert(sprite@.at(x, y) == before.at(x, y));
                }
            }
            py += 1;
            if py == 48 {
                px += 1;
                py = 0;
            }
            i += 1;
        }
        b += 4;
    }
    sprite
}

} // verus!
