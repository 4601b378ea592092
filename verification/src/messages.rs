//! The texts shown for what the map reader and the sheet decoder report,
//! numbers written in decimal and positions as `OtmPos { x: .., y: .., z: .. }`.

use vstd::prelude::*;
use vstd::string::StringExecFns;
use crate::otbm::{OtbmError, OtbmWarning, OtmPos};
use crate::sprite::SheetError;

verus! {

/// The text of a decimal digit.
pub open spec fn digit_text(d: nat) -> Seq<char> {
    if d == 0 {
        "0"@
    } else if d == 1 {
        "1"@
    } else if d == 2 {
        "2"@
    } else if d == 3 {
        "3"@
    } else if d == 4 {
        "4"@
    } else if d == 5 {
        "5"@
    } else if d == 6 {
        "6"@
    } else if d == 7 {
        "7"@
    } else if d == 8 {
        "8"@
    } else {
        "9"@
    }
}

/// `n` written in decimal, without leading zeros.
pub open spec fn decimal(n: nat) -> Seq<char>
    decreases n,
{
    if n < 10 {
        digit_text(n)
    } else {
        decimal(n / 10) + digit_text(n % 10)
    }
}

/// A position as its fields are shown.
pub open spec fn pos_text(p: OtmPos) -> Seq<char> {
    "OtmPos { x: "@ + decimal(p.x as nat) + ", y: "@ + decimal(p.y as nat) + ", z: "@ + decimal(p.z as nat) + " }"@
}

fn digit(d: u64) -> (t: &'static str)
    requires
        d < 10,
    ensures
        t@ == digit_text(d as nat),
{
    if d == 0 {
        "0"
    } else if d == 1 {
        "1"
    } else if d == 2 {
        "2"
    } else if d == 3 {
        "3"
    } else if d == 4 {
        "4"
    } else if d == 5 {
        "5"
    } else if d == 6 {
        "6"
    } else if d == 7 {
        "7"
    } else if d == 8 {
        "8"
    } else {
        "9"
    }
}

/// Writes `n` in decimal at the end of `s`.
fn append_decimal(s: &mut String, n: u64)
    ensures
        final(s)@ == old(s)@ + decimal(n as nat),
    decreases n,
{
    if n >= 10 {
        append_decimal(s, n / 10);
    }
    s.append(digit(n % 10));
    assert(final(s)@ =~= old(s)@ + decimal(n as nat));
}

/// Writes the position `p` at the end of `s`.
fn append_pos(s: &mut String, p: &OtmPos)
    ensures
        final(s)@ == old(s)@ + pos_text(*p),
{
    s.append("OtmPos { x: ");
    append_decimal(s, p.x as u64);
    s.append(", y: ");
    append_decimal(s, p.y as u64);
    s.append(", z: ");
    append_decimal(s, p.z as u64);
    s.append(" }");
    assert(final(s)@ =~= old(s)@ + pos_text(*p));
}

/// The text shown for a map that cannot be read.
pub open spec fn otbm_error_text(e: OtbmError) -> Seq<char> {
    match e {
        OtbmError::TooSmall => "arquivo menor que o cabeçalho de 5 bytes"@,
        OtbmError::BadMagic => "magic não reconhecido (esperado \"OTBM\" ou wildcard)"@,
        OtbmError::BadRootNode => "não há nó raiz (byte 4 não é NODE_START)"@,
        OtbmError::MissingMapData => "nada o nó OTBM_MAP_DATA na raiz"@,
        OtbmError::Truncated(a) => "arquivo truncado ao ler "@ + a@,
        OtbmError::UnsupportedVersion(a) => "OTBM versão "@ + decimal(a as nat) + " não suportada"@,
    }
}

impl OtbmError {
    /// The text shown for it.
    pub fn message(&self) -> (s: String)
        ensures
            s@ == otbm_error_text(*self),
    {
        let mut s = String::new();
        match self {
            OtbmError::TooSmall => {
                s.append("arquivo menor que o cabeçalho de 5 bytes");
            },
            OtbmError::BadMagic => {
                s.append("magic não reconhecido (esperado \"OTBM\" ou wildcard)");
            },
            OtbmError::BadRootNode => {
                s.append("não há nó raiz (byte 4 não é NODE_START)");
            },
            OtbmError::MissingMapData => {
                s.append("nada o nó OTBM_MAP_DATA na raiz");
            },
            OtbmError::Truncated(a) => {
                s.append("arquivo truncado ao ler ");
                s.append(a);
            },
            OtbmError::UnsupportedVersion(a) => {
                s.append("OTBM versão ");
                append_decimal(&mut s, *a as u64);
                s.append(" não suportada");
            },
        }
        s
    }
}

/// The text shown for a warning of the map reader.
pub open spec fn otbm_warning_text(e: OtbmWarning) -> Seq<char> {
    match e {
        OtbmWarning::UnknownRootNode(a) => "nó raiz ignorado (tipo "@ + decimal(a as nat) + ")"@,
        OtbmWarning::UntypedRootNode => "nó raiz sem byte de tipo"@,
        OtbmWarning::BadMapDescription => "descrição do mapa inválida"@,
        OtbmWarning::UnknownHeaderAttr(a) => "atributo de cabeçalho desconhecido ("@ + decimal(a as nat) + ")"@,
        OtbmWarning::UntypedMapChild => "nó filho do MAP_DATA sem tipo"@,
        OtbmWarning::ItemDefIgnored => "OTBM_ITEM_DEF ignorado (definições globais de item)"@,
        OtbmWarning::SpawnsIgnored => "spawns embarcados ignorados (o arquivo usa XML separado)"@,
        OtbmWarning::UnknownMapNode(a) => "tipo de nó de mapa desconhecido ("@ + decimal(a as nat) + ")"@,
        OtbmWarning::AreaWithoutBase => "TILE_AREA sem coordenada base"@,
        OtbmWarning::UntypedAreaChild => "nó filho da área sem tipo"@,
        OtbmWarning::UnknownTileNode(a) => "tipo de nó de tile desconhecido ("@ + decimal(a as nat) + ")"@,
        OtbmWarning::TileWithoutPosition => "tile sem posição na área"@,
        OtbmWarning::InvalidHouseId(a) => "house id inválido em "@ + pos_text(a),
        OtbmWarning::HouseTileWithoutHouse(a) => "house tile sem house data em "@ + pos_text(a),
        OtbmWarning::DuplicateTile(a) => "tile duplicado em "@ + pos_text(a) + ", descartado"@,
        OtbmWarning::BadTileFlags(a) => "tile flags inválidas em "@ + pos_text(a),
        OtbmWarning::LegacyItemWithoutId => "item legado sem id"@,
        OtbmWarning::UnknownTileAttr(a, b) => "atributo de tile desconhecido ("@ + decimal(a as nat) + ") em "@ + pos_text(b),
        OtbmWarning::UntypedTileChild => "filho da tile sem tipo"@,
        OtbmWarning::UnknownTileChild(a, b) => "tipo de filho de tile desconhecido ("@ + decimal(a as nat) + ") em "@ + pos_text(b),
        OtbmWarning::BadZoneCount => "contagem de zonas inválida"@,
        OtbmWarning::BadZoneId => "id de zona inválido"@,
        OtbmWarning::ItemWithoutId => "item sem id"@,
        OtbmWarning::UnknownItemAttr(a, b) => "item "@ + decimal(a as nat) + ": atributo desconhecido ("@ + decimal(b as nat) + "), atributos restantes ignorados"@,
        OtbmWarning::NonItemChild(a) => "item "@ + decimal(a as nat) + ": filho que não é ITEM ignorado"@,
        OtbmWarning::UnknownAttrValueType(a) => "attribute map: tipo de valor desconhecido ("@ + decimal(a as nat) + ")"@,
        OtbmWarning::BadTownNode => "nó de town inválido"@,
        OtbmWarning::IncompleteTown => "town incompleto"@,
        OtbmWarning::DuplicateTown(a) => "town id duplicado "@ + decimal(a as nat) + ", descartado"@,
        OtbmWarning::BadTemple(a) => "town "@ + decimal(a as nat) + ": posição do templo inválida"@,
        OtbmWarning::BadWaypointNode => "nó de waypoint inválido"@,
        OtbmWarning::IncompleteWaypoint => "waypoint incompleto"@,
    }
}

impl OtbmWarning {
    /// The text shown for it.
    pub fn message(&self) -> (s: String)
        ensures
            s@ == otbm_warning_text(*self),
    {
        let mut s = String::new();
        match self {
            OtbmWarning::UnknownRootNode(a) => {
                s.append("nó raiz ignorado (tipo ");
                append_decimal(&mut s, *a as u64);
                s.append(")");
            },
            OtbmWarning::UntypedRootNode => {
                s.append("nó raiz sem byte de tipo");
            },
            OtbmWarning::BadMapDescription => {
                s.append("descrição do mapa inválida");
            },
            OtbmWarning::UnknownHeaderAttr(a) => {
                s.append("atributo de cabeçalho desconhecido (");
                append_decimal(&mut s, *a as u64);
                s.append(")");
            },
            OtbmWarning::UntypedMapChild => {
                s.append("nó filho do MAP_DATA sem tipo");
            },
            OtbmWarning::ItemDefIgnored => {
                s.append("OTBM_ITEM_DEF ignorado (definições globais de item)");
            },
            OtbmWarning::SpawnsIgnored => {
                s.append("spawns embarcados ignorados (o arquivo usa XML separado)");
            },
            OtbmWarning::UnknownMapNode(a) => {
                s.append("tipo de nó de mapa desconhecido (");
                append_decimal(&mut s, *a as u64);
                s.append(")");
            },
            OtbmWarning::AreaWithoutBase => {
                s.append("TILE_AREA sem coordenada base");
            },
            OtbmWarning::UntypedAreaChild => {
                s.append("nó filho da área sem tipo");
            },
            OtbmWarning::UnknownTileNode(a) => {
                s.append("tipo de nó de tile desconhecido (");
                append_decimal(&mut s, *a as u64);
                s.append(")");
            },
            OtbmWarning::TileWithoutPosition => {
                s.append("tile sem posição na área");
            },
            OtbmWarning::InvalidHouseId(a) => {
                s.append("house id inválido em ");
                append_pos(&mut s, a);
            },
            OtbmWarning::HouseTileWithoutHouse(a) => {
                s.append("house tile sem house data em ");
                append_pos(&mut s, a);
            },
            OtbmWarning::DuplicateTile(a) => {
                s.append("tile duplicado em ");
                append_pos(&mut s, a);
                s.append(", descartado");
            },
            OtbmWarning::BadTileFlags(a) => {
                s.append("tile flags inválidas em ");
                append_pos(&mut s, a);
            },
            OtbmWarning::LegacyItemWithoutId => {
                s.append("item legado sem id");
            },
            OtbmWarning::UnknownTileAttr(a, b) => {
                s.append("atributo de tile desconhecido (");
                append_decimal(&mut s, *a as u64);
                s.append(") em ");
                append_pos(&mut s, b);
            },
            OtbmWarning::UntypedTileChild => {
                s.append("filho da tile sem tipo");
            },
            OtbmWarning::UnknownTileChild(a, b) => {
                s.append("tipo de filho de tile desconhecido (");
                append_decimal(&mut s, *a as u64);
                s.append(") em ");
                append_pos(&mut s, b);
            },
            OtbmWarning::BadZoneCount => {
                s.append("contagem de zonas inválida");
            },
            OtbmWarning::BadZoneId => {
                s.append("id de zona inválido");
            },
            OtbmWarning::ItemWithoutId => {
                s.append("item sem id");
            },
            OtbmWarning::UnknownItemAttr(a, b) => {
                s.append("item ");
                append_decimal(&mut s, *a as u64);
                s.append(": atributo desconhecido (");
                append_decimal(&mut s, *b as u64);
                s.append("), atributos restantes ignorados");
            },
            OtbmWarning::NonItemChild(a) => {
                s.append("item ");
                append_decimal(&mut s, *a as u64);
                s.append(": filho que não é ITEM ignorado");
            },
            OtbmWarning::UnknownAttrValueType(a) => {
                s.append("attribute map: tipo de valor desconhecido (");
                append_decimal(&mut s, *a as u64);
                s.append(")");
            },
            OtbmWarning::BadTownNode => {
                s.append("nó de town inválido");
            },
            OtbmWarning::IncompleteTown => {
                s.append("town incompleto");
            },
            OtbmWarning::DuplicateTown(a) => {
                s.append("town id duplicado ");
                append_decimal(&mut s, *a as u64);
                s.append(", descartado");
            },
            OtbmWarning::BadTemple(a) => {
                s.append("town ");
                append_decimal(&mut s, *a as u64);
                s.append(": posição do templo inválida");
            },
            OtbmWarning::BadWaypointNode => {
                s.append("nó de waypoint inválido");
            },
            OtbmWarning::IncompleteWaypoint => {
                s.append("waypoint incompleto");
            },
        }
        s
    }
}

/// The text shown for a sheet that cannot be decoded (the decoder's own error is not part of it).
pub open spec fn sheet_error_text(e: SheetError) -> Seq<char> {
    match e {
        SheetError::TruncatedHeader => "cabeçalho CIP truncado"@,
        SheetError::BadMagic => "sequência mágica CIP inválida"@,
        SheetError::Lzma(_) => "falha no decode LZMA"@,
        SheetError::TruncatedOutput => "saída LZMA menor que o esperado"@,
    }
}

impl SheetError {
    /// The text shown for it.
    pub fn message(&self) -> (s: String)
        ensures
            s@ == sheet_error_text(*self),
    {
        let mut s = String::new();
        match self {
            SheetError::TruncatedHeader => {
                s.append("cabeçalho CIP truncado");
            },
            SheetError::BadMagic => {
                s.append("sequência mágica CIP inválida");
            },
            SheetError::Lzma(_) => {
                s.append("falha no decode LZMA");
            },
            SheetError::TruncatedOutput => {
                s.append("saída LZMA menor que o esperado");
            },
        }
        s
    }
}

} // verus!
