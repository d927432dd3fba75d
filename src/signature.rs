use vstd::prelude::*;
use vstd::string::*;

verus! {

/// A function's return type, ordered parameter types and variadic flag.
///
/// An empty parameter list is distinct from a list holding the single
/// type `void`.
#[derive(Debug, Clone, PartialEq, Eq)]
pub struct FunctionSignature {
    pub return_type: String,
    pub params: Vec<String>,
    pub is_variadic: bool,
}

/// A function found in the analysed source file.
#[derive(Debug, PartialEq, Eq)]
pub struct Function {
    pub name: String,
    /// Defining file, line and column.
    pub location: (String, u32, u32),
    pub signature: FunctionSignature,
}

/// The text of each parameter type, in order.
pub open spec fn param_texts(params: Seq<String>) -> Seq<Seq<char>> {
    params.map_values(|p: String| p@)
}

/// Each parameter followed by a comma, the last one included.
pub open spec fn params_with_commas(params: Seq<Seq<char>>) -> Seq<char>
    decreases params.len(),
{
    if params.len() == 0 {
        Seq::empty()
    } else {
        params_with_commas(params.drop_last()) + params.last() + seq![',']
    }
}

/// The canonical form `<ret>(<p1>,<p2>,...,<pn>,)`; `<ret>()` when there
/// are no parameters.
pub open spec fn canonical_text(ret: Seq<char>, params: Seq<Seq<char>>) -> Seq<char> {
    ret + seq!['('] + params_with_commas(params) + seq![')']
}

/// The parameter types that a declaration's record lists: `void` alone
/// where the declaration takes no parameters.
pub fn declared_params(params: Vec<String>) -> (r: Vec<String>)
    ensures
        params@.len() == 0 ==> param_texts(r@) == void_params(),
        params@.len() > 0 ==> r@ == params@,
{
    if params.len() == 0 {
        let mut r: Vec<String> = Vec::new();
        let void = String::from_str("void");
        proof {
            reveal_strlit("void");
            assert(void@ =~= seq!['v', 'o', 'i', 'd']);
        }
        r.push(void);
        assert(param_texts(r@)[0] == void_params()[0]);
        assert(param_texts(r@) =~= void_params());
        r
    } else {
        params
    }
}

/// The parameter list holding the single type `void`.
pub open spec fn void_params() -> Seq<Seq<char>> {
    seq![seq!['v', 'o', 'i', 'd']]
}

/// A signature without parameters renders as `<ret>()`, one whose only
/// parameter is `void` as `<ret>(void,)`, and the two forms differ.
pub proof fn lemma_no_params_differs_from_void(ret: Seq<char>)
    ensures
        canonical_text(ret, Seq::empty()) == ret + seq!['(', ')'],
        canonical_text(ret, void_params()) == ret + seq!['(', 'v', 'o', 'i', 'd', ',', ')'],
        canonical_text(ret, Seq::empty()) != canonical_text(ret, void_params()),
{
    assert(void_params().drop_last() =~= Seq::<Seq<char>>::empty());
    assert(canonical_text(ret, Seq::empty()) =~= ret + seq!['(', ')']);
    assert(canonical_text(ret, void_params()) =~= ret + seq!['(', 'v', 'o', 'i', 'd', ',', ')']);
    assert(canonical_text(ret, Seq::empty()).len() != canonical_text(ret, void_params()).len());
}

impl FunctionSignature {
    /// The canonical form of this signature.
    pub open spec fn canonical_spec(&self) -> Seq<char> {
        canonical_text(self.return_type@, param_texts(self.params@))
    }

    /// Renders the signature in canonical form, the text that scoring
    /// compares. The variadic flag does not appear in it.
    pub fn canonical(&self) -> (r: String)
        ensures
            r@ == self.canonical_spec(),
    {
        let mut out = self.return_type.clone();
        out.append("(");
        let n = self.params.len();
        let mut i: usize = 0;
        proof {
            reveal_strlit("(");
            assert(self.params@.subrange(0, 0) =~= Seq::<String>::empty());
            assert(param_texts(self.params@.subrange(0, 0)) =~= Seq::<Seq<char>>::empty());
        }
        while i < n
            invariant
                n == self.params@.len(),
                0 <= i <= n,
                out@ == self.return_type@ + seq!['('] + params_with_commas(
                    param_texts(self.params@.subrange(0, i as int)),
                ),
            decreases n - i,
        {
            out.append(self.params[i].as_str());
            out.append(",");
            proof {
                reveal_strlit(",");
                let prev = param_texts(self.params@.subrange(0, i as int));
                let next = param_texts(self.params@.subrange(0, i + 1));
                assert(next.drop_last() =~= prev);
                assert(next.last() == self.params@[i as int]@);
            }
            i = i + 1;
        }
        out.append(")");
        proof {
            reveal_strlit(")");
            assert(self.params@.subrange(0, n as int) =~= self.params@);
        }
        assert(out@ =~= self.canonical_spec());
        out
    }
}

} // verus!
