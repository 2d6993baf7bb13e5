use crate::text::{decimal, push_decimal};
use vstd::prelude::*;
use vstd::string::*;

verus! {

/// The type of a temporary variable.
#[derive(Clone, Copy, PartialEq, Eq, Structural, Debug)]
pub enum TempVarType {
    Int,
    Real,
}

/// What an object file holds: the types of its temporary variables, in the
/// order in which they were added, and the fragments of its body.
pub struct ObjFileView {
    pub temp_vars: Seq<TempVarType>,
    pub content: Seq<Seq<char>>,
}

/// The object file under construction. The temporary variable at index `i`
/// of the ledger is the one that the body calls `T<i>`.
pub struct ObjFile {
    temp_vars: Vec<TempVarType>,
    content: Vec<String>,
}

/// The lines that open every object file.
pub open spec fn prologue() -> Seq<char> {
    "#include <stdio.h>\n\ntypedef char literal[256];\ntypedef int inteiro;\ntypedef double real;\n\nvoid main(void)\n{\n"@
}

/// The lines that close every object file.
pub open spec fn epilogue() -> Seq<char> {
    "    return 0;\n}\n"@
}

/// The line that declares the temporary variable of the given index.
pub open spec fn declaration(kind: TempVarType, index: nat) -> Seq<char> {
    (match kind {
        TempVarType::Int => "    inteiro T"@,
        TempVarType::Real => "    real T"@,
    }) + decimal(index) + "\n"@
}

/// The declarations of the temporary variables, one line each, in order.
pub open spec fn declarations(temp_vars: Seq<TempVarType>) -> Seq<char>
    decreases temp_vars.len(),
{
    if temp_vars.len() == 0 {
        Seq::empty()
    } else {
        declarations(temp_vars.drop_last()) + declaration(
            temp_vars.last(),
            (temp_vars.len() - 1) as nat,
        )
    }
}

/// The block of the temporary variables: nothing where there are none,
/// else their declarations between two comment lines.
pub open spec fn temporaries(temp_vars: Seq<TempVarType>) -> Seq<char> {
    if temp_vars.len() == 0 {
        Seq::empty()
    } else {
        "    /*----Variaveis temporarias----*/\n"@ + declarations(temp_vars)
            + "    /*------------------------------*/\n"@
    }
}

/// The fragments one after another.
pub open spec fn joined(content: Seq<Seq<char>>) -> Seq<char>
    decreases content.len(),
{
    if content.len() == 0 {
        Seq::empty()
    } else {
        joined(content.drop_last()) + content.last()
    }
}

/// The whole text of the object file.
pub open spec fn rendered(file: ObjFileView) -> Seq<char> {
    prologue() + temporaries(file.temp_vars) + joined(file.content) + epilogue()
}

impl View for ObjFile {
    type V = ObjFileView;

    closed spec fn view(&self) -> ObjFileView {
        ObjFileView {
            temp_vars: self.temp_vars@,
            content: Seq::new(self.content@.len(), |i: int| self.content@[i]@),
        }
    }
}

impl ObjFile {
    /// An object file with no temporary variable and an empty body.
    pub fn new() -> (file: ObjFile)
        ensures
            file@ == (ObjFileView { temp_vars: Seq::empty(), content: Seq::empty() }),
    {
        let file = ObjFile { temp_vars: Vec::new(), content: Vec::new() };
        assert(file@.content =~= Seq::empty());
        file
    }

    /// Appends a fragment to the body.
    pub fn print(&mut self, s: String)
        ensures
            final(self)@ == (ObjFileView { content: old(self)@.content.push(s@), ..old(self)@ }),
    {
        self.content.push(s);
        assert(self@.content =~= old(self)@.content.push(s@));
    }

    /// Adds a temporary variable of the given type; its index is the number
    /// of those added before it.
    pub fn add_temp_var(&mut self, temp_var_type: TempVarType)
        ensures
            final(self)@ == (ObjFileView {
                temp_vars: old(self)@.temp_vars.push(temp_var_type),
                ..old(self)@
            }),
    {
        self.temp_vars.push(temp_var_type);
        assert(self@.content =~= old(self)@.content);
    }

    /// The number of temporary variables added so far.
    pub fn temp_count(&self) -> (n: usize)
        ensures
            n == self@.temp_vars.len(),
    {
        self.temp_vars.len()
    }

    /// The type of the temporary variable of the given index, if there
    /// is one.
    pub fn temp_var(&self, index: usize) -> (kind: Option<TempVarType>)
        ensures
            kind == (if index < self@.temp_vars.len() {
                Some(self@.temp_vars[index as int])
            } else {
                None
            }),
    {
        if index < self.temp_vars.len() {
            Some(self.temp_vars[index])
        } else {
            None
        }
    }

    /// The text of the object file: the prologue, the declarations of the
    /// temporary variables if there are any, the body, and the epilogue.
    pub fn create(&self) -> (text: String)
        ensures
            text@ == rendered(self@),
    {
        let mut text = String::from_str(
            "#include <stdio.h>\n\ntypedef char literal[256];\ntypedef int inteiro;\ntypedef double real;\n\nvoid main(void)\n{\n",
        );
        if self.temp_vars.len() > 0 {
            text.append("    /*----Variaveis temporarias----*/\n");
            let mut i: usize = 0;
            while i < self.temp_vars.len()
                invariant
                    i <= self.temp_vars@.len(),
                    text@ == prologue() + "    /*----Variaveis temporarias----*/\n"@ + declarations(
                        self.temp_vars@.take(i as int),
                    ),
                decreases self.temp_vars@.len() - i,
            {
                let ghost before = text@;
                match self.temp_vars[i] {
                    TempVarType::Int => {
                        text.append("    inteiro T");
                    },
                    TempVarType::Real => {
                        text.append("    real T");
                    },
                }
                push_decimal(&mut text, i as u128);
                text.append("\n");
                proof {
                    let next = self.temp_vars@.take(i + 1);
                    assert(next.drop_last() =~= self.temp_vars@.take(i as int));
                    assert(text@ =~= before + declaration(self.temp_vars@[i as int], i as nat));
                    assert(text@ =~= prologue() + "    /*----Variaveis temporarias----*/\n"@
                        + declarations(next));
                }
                i += 1;
            }
            text.append("    /*------------------------------*/\n");
            proof {
                assert(self.temp_vars@.take(self.temp_vars@.len() as int) =~= self.temp_vars@);
                assert(text@ =~= prologue() + temporaries(self@.temp_vars));
            }
        } else {
            assert(text@ =~= prologue() + temporaries(self@.temp_vars));
        }
        let mut k: usize = 0;
        while k < self.content.len()
            invariant
                k <= self.content@.len(),
                text@ == prologue() + temporaries(self@.temp_vars) + joined(self@.content.take(k as int)),
            decreases self.content@.len() - k,
        {
            text.append(self.content[k].as_str());
            proof {
                let next = self@.content.take(k + 1);
                assert(next.drop_last() =~= self@.content.take(k as int));
                assert(next.last() == self.content@[k as int]@);
                assert(text@ =~= prologue() + temporaries(self@.temp_vars) + joined(next));
            }
            k += 1;
        }
        text.append("    return 0;\n}\n");
        proof {
            assert(self@.content.take(self.content@.len() as int) =~= self@.content);
        }
        text
    }
}

} // verus!
