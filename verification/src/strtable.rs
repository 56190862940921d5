//! The attribute table of `str` values: which names a string answers and
//! which built-in method each one is.

use vstd::prelude::*;
use crate::error::{PyError, PyErrorView};
use crate::object::{no_attr_message, no_attr_msg, str_is};

verus! {

/// The built-in methods and dunders of `str`, one per attribute name.
#[derive(Debug, Clone, Copy, PartialEq, Eq)]
pub enum StrAttr {
    Mul,
    RMul,
    Hash,
    Contains,
    Format,
    Split,
    RSplit,
    Join,
    Upper,
    Lower,
    Strip,
    LStrip,
    RStrip,
    StartsWith,
    EndsWith,
    Find,
    RFind,
    Index,
    RIndex,
    Count,
    Replace,
    IsDecimal,
    IsNumeric,
    IsAscii,
    IsPrintable,
    Casefold,
    IsDigit,
    IsAlpha,
    IsAlnum,
    IsSpace,
    IsLower,
    IsUpper,
    IsTitle,
    Title,
    Capitalize,
    SwapCase,
    ZFill,
    LJust,
    RJust,
    Center,
    RemovePrefix,
    RemoveSuffix,
    Mod,
    Partition,
    RPartition,
    SplitLines,
    ExpandTabs,
    Translate,
    MakeTrans,
    Encode,
    IsIdentifier,
    SizeOf,
    GetItem,
    Len,
    Iter,
}

/// The method `n` names on a string, if any.
pub open spec fn str_attr_of(n: Seq<char>) -> Option<StrAttr> {
    if n == "__mul__"@ {
        Some(StrAttr::Mul)
    } else if n == "__rmul__"@ {
        Some(StrAttr::RMul)
    } else if n == "__hash__"@ {
        Some(StrAttr::Hash)
    } else if n == "__contains__"@ {
        Some(StrAttr::Contains)
    } else if n == "format"@ {
        Some(StrAttr::Format)
    } else if n == "split"@ {
        Some(StrAttr::Split)
    } else if n == "rsplit"@ {
        Some(StrAttr::RSplit)
    } else if n == "join"@ {
        Some(StrAttr::Join)
    } else if n == "upper"@ {
        Some(StrAttr::Upper)
    } else if n == "lower"@ {
        Some(StrAttr::Lower)
    } else if n == "strip"@ {
        Some(StrAttr::Strip)
    } else if n == "lstrip"@ {
        Some(StrAttr::LStrip)
    } else if n == "rstrip"@ {
        Some(StrAttr::RStrip)
    } else if n == "startswith"@ {
        Some(StrAttr::StartsWith)
    } else if n == "endswith"@ {
        Some(StrAttr::EndsWith)
    } else if n == "find"@ {
        Some(StrAttr::Find)
    } else if n == "rfind"@ {
        Some(StrAttr::RFind)
    } else if n == "index"@ {
        Some(StrAttr::Index)
    } else if n == "rindex"@ {
        Some(StrAttr::RIndex)
    } else if n == "count"@ {
        Some(StrAttr::Count)
    } else if n == "replace"@ {
        Some(StrAttr::Replace)
    } else if n == "isdecimal"@ {
        Some(StrAttr::IsDecimal)
    } else if n == "isnumeric"@ {
        Some(StrAttr::IsNumeric)
    } else if n == "isascii"@ {
        Some(StrAttr::IsAscii)
    } else if n == "isprintable"@ {
        Some(StrAttr::IsPrintable)
    } else if n == "casefold"@ {
        Some(StrAttr::Casefold)
    } else if n == "isdigit"@ {
        Some(StrAttr::IsDigit)
    } else if n == "isalpha"@ {
        Some(StrAttr::IsAlpha)
    } else if n == "isalnum"@ {
        Some(StrAttr::IsAlnum)
    } else if n == "isspace"@ {
        Some(StrAttr::IsSpace)
    } else if n == "islower"@ {
        Some(StrAttr::IsLower)
    } else if n == "isupper"@ {
        Some(StrAttr::IsUpper)
    } else if n == "istitle"@ {
        Some(StrAttr::IsTitle)
    } else if n == "title"@ {
        Some(StrAttr::Title)
    } else if n == "capitalize"@ {
        Some(StrAttr::Capitalize)
    } else if n == "swapcase"@ {
        Some(StrAttr::SwapCase)
    } else if n == "zfill"@ {
        Some(StrAttr::ZFill)
    } else if n == "ljust"@ {
        Some(StrAttr::LJust)
    } else if n == "rjust"@ {
        Some(StrAttr::RJust)
    } else if n == "center"@ {
        Some(StrAttr::Center)
    } else if n == "removeprefix"@ {
        Some(StrAttr::RemovePrefix)
    } else if n == "removesuffix"@ {
        Some(StrAttr::RemoveSuffix)
    } else if n == "__mod__"@ {
        Some(StrAttr::Mod)
    } else if n == "partition"@ {
        Some(StrAttr::Partition)
    } else if n == "rpartition"@ {
        Some(StrAttr::RPartition)
    } else if n == "splitlines"@ {
        Some(StrAttr::SplitLines)
    } else if n == "expandtabs"@ {
        Some(StrAttr::ExpandTabs)
    } else if n == "translate"@ {
        Some(StrAttr::Translate)
    } else if n == "maketrans"@ {
        Some(StrAttr::MakeTrans)
    } else if n == "encode"@ {
        Some(StrAttr::Encode)
    } else if n == "isidentifier"@ {
        Some(StrAttr::IsIdentifier)
    } else if n == "__sizeof__"@ {
        Some(StrAttr::SizeOf)
    } else if n == "__getitem__"@ {
        Some(StrAttr::GetItem)
    } else if n == "__len__"@ {
        Some(StrAttr::Len)
    } else if n == "__iter__"@ {
        Some(StrAttr::Iter)
    } else {
        None
    }
}

/// The attribute `name` of a string: the built-in method it names, or the
/// `AttributeError` `'str' object has no attribute 'name'`.
#[verifier::rlimit(50)]
pub fn str_attribute(name: &str) -> (r: Result<StrAttr, PyError>)
    ensures
        str_attr_of(name@) matches Some(a) ==> r == Ok::<StrAttr, PyError>(a),
        str_attr_of(name@) is None ==> (r matches Err(e) && e@ == PyErrorView::AttributeError(
            no_attr_message("str"@, name@))),
{
    if str_is(name, "__mul__") {
        Ok(StrAttr::Mul)
    } else if str_is(name, "__rmul__") {
        Ok(StrAttr::RMul)
    } else if str_is(name, "__hash__") {
        Ok(StrAttr::Hash)
    } else if str_is(name, "__contains__") {
        Ok(StrAttr::Contains)
    } else if str_is(name, "format") {
        Ok(StrAttr::Format)
    } else if str_is(name, "split") {
        Ok(StrAttr::Split)
    } else if str_is(name, "rsplit") {
        Ok(StrAttr::RSplit)
    } else if str_is(name, "join") {
        Ok(StrAttr::Join)
    } else if str_is(name, "upper") {
        Ok(StrAttr::Upper)
    } else if str_is(name, "lower") {
        Ok(StrAttr::Lower)
    } else if str_is(name, "strip") {
        Ok(StrAttr::Strip)
    } else if str_is(name, "lstrip") {
        Ok(StrAttr::LStrip)
    } else if str_is(name, "rstrip") {
        Ok(StrAttr::RStrip)
    } else if str_is(name, "startswith") {
        Ok(StrAttr::StartsWith)
    } else if str_is(name, "endswith") {
        Ok(StrAttr::EndsWith)
    } else if str_is(name, "find") {
        Ok(StrAttr::Find)
    } else if str_is(name, "rfind") {
        Ok(StrAttr::RFind)
    } else if str_is(name, "index") {
        Ok(StrAttr::Index)
    } else if str_is(name, "rindex") {
        Ok(StrAttr::RIndex)
    } else if str_is(name, "count") {
        Ok(StrAttr::Count)
    } else if str_is(name, "replace") {
        Ok(StrAttr::Replace)
    } else if str_is(name, "isdecimal") {
        Ok(StrAttr::IsDecimal)
    } else if str_is(name, "isnumeric") {
        Ok(StrAttr::IsNumeric)
    } else if str_is(name, "isascii") {
        Ok(StrAttr::IsAscii)
    } else if str_is(name, "isprintable") {
        Ok(StrAttr::IsPrintable)
    } else if str_is(name, "casefold") {
        Ok(StrAttr::Casefold)
    } else if str_is(name, "isdigit") {
        Ok(StrAttr::IsDigit)
    } else if str_is(name, "isalpha") {
        Ok(StrAttr::IsAlpha)
    } else if str_is(name, "isalnum") {
        Ok(StrAttr::IsAlnum)
    } else if str_is(name, "isspace") {
        Ok(StrAttr::IsSpace)
    } else if str_is(name, "islower") {
        Ok(StrAttr::IsLower)
    } else if str_is(name, "isupper") {
        Ok(StrAttr::IsUpper)
    } else if str_is(name, "istitle") {
        Ok(StrAttr::IsTitle)
    } else if str_is(name, "title") {
        Ok(StrAttr::Title)
    } else if str_is(name, "capitalize") {
        Ok(StrAttr::Capitalize)
    } else if str_is(name, "swapcase") {
        Ok(StrAttr::SwapCase)
    } else if str_is(name, "zfill") {
        Ok(StrAttr::ZFill)
    } else if str_is(name, "ljust") {
        Ok(StrAttr::LJust)
    } else if str_is(name, "rjust") {
        Ok(StrAttr::RJust)
    } else if str_is(name, "center") {
        Ok(StrAttr::Center)
    } else if str_is(name, "removeprefix") {
        Ok(StrAttr::RemovePrefix)
    } else if str_is(name, "removesuffix") {
        Ok(StrAttr::RemoveSuffix)
    } else if str_is(name, "__mod__") {
        Ok(StrAttr::Mod)
    } else if str_is(name, "partition") {
        Ok(StrAttr::Partition)
    } else if str_is(name, "rpartition") {
        Ok(StrAttr::RPartition)
    } else if str_is(name, "splitlines") {
        Ok(StrAttr::SplitLines)
    } else if str_is(name, "expandtabs") {
        Ok(StrAttr::ExpandTabs)
    } else if str_is(name, "translate") {
        Ok(StrAttr::Translate)
    } else if str_is(name, "maketrans") {
        Ok(StrAttr::MakeTrans)
    } else if str_is(name, "encode") {
        Ok(StrAttr::Encode)
    } else if str_is(name, "isidentifier") {
        Ok(StrAttr::IsIdentifier)
    } else if str_is(name, "__sizeof__") {
        Ok(StrAttr::SizeOf)
    } else if str_is(name, "__getitem__") {
        Ok(StrAttr::GetItem)
    } else if str_is(name, "__len__") {
        Ok(StrAttr::Len)
    } else if str_is(name, "__iter__") {
        Ok(StrAttr::Iter)
    } else {
        Err(PyError::AttributeError(no_attr_msg("str", name)))
    }
}

} // verus!
