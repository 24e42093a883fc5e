//! The closed set of pipeline stages a lead may hold, and the total
//! normalization from free-text stage values into that set.

use vstd::prelude::*;

use crate::logging::lower_ascii_char;
use crate::text::chars_of;
use crate::text::chars_eq_str;
use crate::text::trim_chars;
use crate::text::trim_seq;

verus! {

#[derive(Clone, Copy, Debug, PartialEq, Eq, Structural)]
pub enum CanonicalStage {
    Novo,
    Contatado,
    Apresentacao,
    Proposta,
    Negociacao,
    Ganho,
    Pausado,
    Perdido,
}

/// The display name of each canonical stage.
pub open spec fn stage_name(s: CanonicalStage) -> Seq<char> {
    match s {
        CanonicalStage::Novo => "Novo"@,
        CanonicalStage::Contatado => "Contatado"@,
        CanonicalStage::Apresentacao => "Apresentação"@,
        CanonicalStage::Proposta => "Proposta"@,
        CanonicalStage::Negociacao => "Negociação"@,
        CanonicalStage::Ganho => "Ganho"@,
        CanonicalStage::Pausado => "Pausado"@,
        CanonicalStage::Perdido => "Perdido"@,
    }
}

impl CanonicalStage {
    pub fn as_str(self) -> (r: &'static str)
        ensures
            r@ == stage_name(self),
    {
        match self {
            CanonicalStage::Novo => "Novo",
            CanonicalStage::Contatado => "Contatado",
            CanonicalStage::Apresentacao => "Apresentação",
            CanonicalStage::Proposta => "Proposta",
            CanonicalStage::Negociacao => "Negociação",
            CanonicalStage::Ganho => "Ganho",
            CanonicalStage::Pausado => "Pausado",
            CanonicalStage::Perdido => "Perdido",
        }
    }
}

/// Lower case over ASCII letters and the accented Latin letters that the
/// stage synonyms use; other characters are unchanged.
pub open spec fn lower_latin_char(c: char) -> char {
    match c {
        'À' => 'à',
        'Á' => 'á',
        'Â' => 'â',
        'Ã' => 'ã',
        'Ä' => 'ä',
        'Ç' => 'ç',
        'È' => 'è',
        'É' => 'é',
        'Ê' => 'ê',
        'Ë' => 'ë',
        'Ì' => 'ì',
        'Í' => 'í',
        'Î' => 'î',
        'Ï' => 'ï',
        'Ò' => 'ò',
        'Ó' => 'ó',
        'Ô' => 'ô',
        'Õ' => 'õ',
        'Ö' => 'ö',
        'Ù' => 'ù',
        'Ú' => 'ú',
        'Û' => 'û',
        'Ü' => 'ü',
        _ => lower_ascii_char(c),
    }
}

pub fn lower_latin(c: char) -> (r: char)
    ensures
        r == lower_latin_char(c),
{
    match c {
        'À' => 'à',
        'Á' => 'á',
        'Â' => 'â',
        'Ã' => 'ã',
        'Ä' => 'ä',
        'Ç' => 'ç',
        'È' => 'è',
        'É' => 'é',
        'Ê' => 'ê',
        'Ë' => 'ë',
        'Ì' => 'ì',
        'Í' => 'í',
        'Î' => 'î',
        'Ï' => 'ï',
        'Ò' => 'ò',
        'Ó' => 'ó',
        'Ô' => 'ô',
        'Õ' => 'õ',
        'Ö' => 'ö',
        'Ù' => 'ù',
        'Ú' => 'ú',
        'Û' => 'û',
        'Ü' => 'ü',
        c2 => crate::logging::lower_ascii(c2),
    }
}

pub open spec fn lower_latin_seq(s: Seq<char>) -> Seq<char> {
    s.map_values(|c: char| lower_latin_char(c))
}

/// The canonical stage a free-text value normalizes to: an exact canonical
/// name is kept; a known synonym is mapped; anything else falls back to Novo.
pub open spec fn stage_of_seq(s: Seq<char>) -> CanonicalStage {
    let t = trim_seq(s);
    if t == stage_name(CanonicalStage::Novo) {
        CanonicalStage::Novo
    } else if t == stage_name(CanonicalStage::Contatado) {
        CanonicalStage::Contatado
    } else if t == stage_name(CanonicalStage::Apresentacao) {
        CanonicalStage::Apresentacao
    } else if t == stage_name(CanonicalStage::Proposta) {
        CanonicalStage::Proposta
    } else if t == stage_name(CanonicalStage::Negociacao) {
        CanonicalStage::Negociacao
    } else if t == stage_name(CanonicalStage::Ganho) {
        CanonicalStage::Ganho
    } else if t == stage_name(CanonicalStage::Pausado) {
        CanonicalStage::Pausado
    } else if t == stage_name(CanonicalStage::Perdido) {
        CanonicalStage::Perdido
    } else {
        let l = lower_latin_seq(t);
        if l == "apresentação de portifolio feita"@ || l == "apresentacao de portifolio feita"@ {
            CanonicalStage::Apresentacao
        } else if l == "ganho"@ || l == "ganha"@ || l == "convertido"@ || l == "convertida"@ || l
            == "won"@ {
            CanonicalStage::Ganho
        } else {
            CanonicalStage::Novo
        }
    }
}

pub fn canonical_stage_of(stage: &str) -> (r: CanonicalStage)
    ensures
        r == stage_of_seq(stage@),
{
    let v = chars_of(stage);
    let t = trim_chars(&v);
    if chars_eq_str(&t, "Novo") {
        return CanonicalStage::Novo;
    }
    if chars_eq_str(&t, "Contatado") {
        return CanonicalStage::Contatado;
    }
    if chars_eq_str(&t, "Apresentação") {
        return CanonicalStage::Apresentacao;
    }
    if chars_eq_str(&t, "Proposta") {
        return CanonicalStage::Proposta;
    }
    if chars_eq_str(&t, "Negociação") {
        return CanonicalStage::Negociacao;
    }
    if chars_eq_str(&t, "Ganho") {
        return CanonicalStage::Ganho;
    }
    if chars_eq_str(&t, "Pausado") {
        return CanonicalStage::Pausado;
    }
    if chars_eq_str(&t, "Perdido") {
        return CanonicalStage::Perdido;
    }
    let mut low: Vec<char> = Vec::new();
    let mut i: usize = 0;
    while i < t.len()
        invariant
            0 <= i <= t@.len(),
            low@ == lower_latin_seq(t@.take(i as int)),
        decreases t@.len() - i,
    {
        low.push(lower_latin(t[i]));
        assert(low@ =~= lower_latin_seq(t@.take(i + 1)));
        i = i + 1;
    }
    proof {
        assert(t@.take(t@.len() as int) =~= t@);
    }
    if chars_eq_str(&low, "apresentação de portifolio feita") || chars_eq_str(
        &low,
        "apresentacao de portifolio feita",
    ) {
        return CanonicalStage::Apresentacao;
    }
    if chars_eq_str(&low, "ganho") || chars_eq_str(&low, "ganha") || chars_eq_str(
        &low,
        "convertido",
    ) || chars_eq_str(&low, "convertida") || chars_eq_str(&low, "won") {
        return CanonicalStage::Ganho;
    }
    CanonicalStage::Novo
}

/// The canonical display string for a free-text stage value.
pub fn normalize_stage(stage: &str) -> (r: String)
    ensures
        r@ == stage_name(stage_of_seq(stage@)),
{
    let s = canonical_stage_of(stage);
    s.as_str().to_owned()
}

} // verus!
