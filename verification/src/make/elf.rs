//! What the patch reads of an object file: the names, addresses and bytes
//! of its sections, and the names and addresses of its symbols.

use object::{Object, ObjectSection, ObjectSymbol, ObjectSymbolTable};
use vstd::prelude::*;

verus! {

/// A section of an object file.  The name and the bytes are absent where
/// the file does not give them.
#[derive(Debug, PartialEq)]
pub struct ElfSection {
    pub name: Option<String>,
    pub address: u64,
    pub size: u64,
    pub data: Option<Vec<u8>>,
}

/// An `ElfSection` with its name and bytes as sequences.
pub struct ElfSectionView {
    pub name: Option<Seq<char>>,
    pub address: u64,
    pub size: u64,
    pub data: Option<Seq<u8>>,
}

impl View for ElfSection {
    type V = ElfSectionView;

    open spec fn view(&self) -> ElfSectionView {
        ElfSectionView {
            name: match self.name {
                Some(n) => Some(n@),
                None => None,
            },
            address: self.address,
            size: self.size,
            data: match self.data {
                Some(d) => Some(d@),
                None => None,
            },
        }
    }
}

/// A symbol of an object file.
#[derive(Debug, PartialEq)]
pub struct ElfSymbol {
    pub name: Option<String>,
    pub address: u64,
}

/// An `ElfSymbol` with its name as a sequence of characters.
pub struct ElfSymbolView {
    pub name: Option<Seq<char>>,
    pub address: u64,
}

impl View for ElfSymbol {
    type V = ElfSymbolView;

    open spec fn view(&self) -> ElfSymbolView {
        ElfSymbolView {
            name: match self.name {
                Some(n) => Some(n@),
                None => None,
            },
            address: self.address,
        }
    }
}

/// The sections of an object file in the order of the file, and the
/// symbols of its symbol table if it has one.
#[derive(Debug, PartialEq)]
pub struct ElfImage {
    pub sections: Vec<ElfSection>,
    pub symbols: Option<Vec<ElfSymbol>>,
}

/// An `ElfImage` with its sections and symbols as sequences.
pub struct ElfImageView {
    pub sections: Seq<ElfSectionView>,
    pub symbols: Option<Seq<ElfSymbolView>>,
}

/// The views of a list of sections.
pub open spec fn sections_view(list: Seq<ElfSection>) -> Seq<ElfSectionView> {
    Seq::new(list.len(), |i: int| list[i]@)
}

/// The views of a list of symbols.
pub open spec fn symbols_view(list: Seq<ElfSymbol>) -> Seq<ElfSymbolView> {
    Seq::new(list.len(), |i: int| list[i]@)
}

impl View for ElfImage {
    type V = ElfImageView;

    open spec fn view(&self) -> ElfImageView {
        ElfImageView {
            sections: sections_view(self.sections@),
            symbols: match self.symbols {
                Some(s) => Some(symbols_view(s@)),
                None => None,
            },
        }
    }
}

/// What the `object` crate reads out of the given bytes: the sections and
/// symbols of the object file that they hold, or nothing where they hold
/// none.
pub uninterp spec fn elf_image_of(data: Seq<u8>) -> Option<ElfImageView>;

/// What `cpp_demangle` makes of a symbol name: the C++ declaration that the
/// name mangles, or nothing where it mangles none.
pub uninterp spec fn demangled(name: Seq<char>) -> Option<Seq<char>>;

/// Parses the bytes with `object::File::parse` and copies out, for each
/// section that `sections` yields, what `name`, `address`, `size` and
/// `data` give, and for each symbol that `symbol_table` and `symbols`
/// yield, what `name` and `address` give.  An error of `parse` becomes
/// `None`; an error of `name` or `data` leaves that field empty.
#[verifier::external_body]
pub(crate) fn read_elf(data: &[u8]) -> (r: Option<ElfImage>)
    ensures
        match r {
            Some(image) => elf_image_of(data@) == Some(image@),
            None => elf_image_of(data@) is None,
        },
{
    let file = object::File::parse(data).ok()?;
    let sections = file.sections().map(|s| ElfSection {
        name: s.name().ok().map(String::from),
        address: s.address(),
        size: s.size(),
        data: s.data().ok().map(<[u8]>::to_vec),
    }).collect();
    let symbols = file.symbol_table().map(|t| t.symbols().map(|s| ElfSymbol {
        name: s.name().ok().map(String::from),
        address: s.address(),
    }).collect());
    Some(ElfImage { sections, symbols })
}

/// Parses the name with `cpp_demangle::Symbol::new` and writes the symbol
/// out with `demangle` under the default options.  A name that is not
/// mangled, or that cannot be written out, gives `None`.
#[verifier::external_body]
pub(crate) fn demangle(name: &str) -> (r: Option<String>)
    ensures
        match r {
            Some(text) => demangled(name@) == Some(text@),
            None => demangled(name@) is None,
        },
{
    let symbol = cpp_demangle::Symbol::new(name).ok()?;
    symbol.demangle(&cpp_demangle::DemangleOptions::default()).ok()
}

} // verus!
