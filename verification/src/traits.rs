//! Parameter buffers, prefixes, and the two capabilities that every
//! parameter tree and every result shape implements.

use vstd::prelude::*;
use vstd::string::*;
use crate::error::Error;
use crate::json::ValueMap;

verus! {

/// The text of a parameter list after `fragment` is appended to `text`: the
/// first fragment opens the parenthesis, every later one follows `", "`.
pub open spec fn pushed(text: Seq<char>, fragment: Seq<char>) -> Seq<char> {
    if text.len() == 0 {
        seq!['('] + fragment
    } else {
        text + seq![',', ' '] + fragment
    }
}

/// The text after each of `fragments` is appended to `text`, first to last.
pub open spec fn pushed_all(text: Seq<char>, fragments: Seq<Seq<char>>) -> Seq<char>
    decreases fragments.len(),
{
    if fragments.len() == 0 {
        text
    } else {
        pushed(pushed_all(text, fragments.drop_last()), fragments.last())
    }
}

/// The finished list: nothing when nothing was appended, else the text with
/// its closing parenthesis.
pub open spec fn finished(text: Seq<char>) -> Seq<char> {
    if text.len() == 0 {
        text
    } else {
        text + seq![')']
    }
}

/// The finished list made of `fragments` alone.
pub open spec fn rendered(fragments: Seq<Seq<char>>) -> Seq<char> {
    finished(pushed_all(Seq::empty(), fragments))
}

/// `fragments` with `", "` between each two neighbours.
pub open spec fn joined(fragments: Seq<Seq<char>>) -> Seq<char>
    decreases fragments.len(),
{
    if fragments.len() == 0 {
        Seq::empty()
    } else if fragments.len() == 1 {
        fragments[0]
    } else {
        joined(fragments.drop_last()) + seq![',', ' '] + fragments.last()
    }
}

/// The declaration of one variable: `$<prefix><name>: <type>`.
pub open spec fn formal_fragment(prefix: Seq<char>, name: Seq<char>, ty: Seq<char>) -> Seq<char> {
    seq!['$'] + prefix + name + seq![':', ' '] + ty
}

/// The binding of one argument to its variable: `<name>: $<prefix><name>`.
pub open spec fn actual_fragment(prefix: Seq<char>, name: Seq<char>) -> Seq<char> {
    name + seq![':', ' ', '$'] + prefix + name
}

/// Accumulates the parenthesised, comma-separated parameter list of one
/// level of a document. Its view is the text written so far, which lacks the
/// closing parenthesis until the buffer is consumed.
pub struct ParamBuffer {
    buf: String,
}

impl View for ParamBuffer {
    type V = Seq<char>;

    closed spec fn view(&self) -> Seq<char> {
        self.buf@
    }
}

impl ParamBuffer {
    pub fn new() -> (r: ParamBuffer)
        ensures
            r@ == Seq::<char>::empty(),
    {
        ParamBuffer { buf: String::new() }
    }

    /// Appends one fragment.
    pub fn push(&mut self, s: &str)
        ensures
            final(self)@ == pushed(old(self)@, s@),
    {
        if self.buf.as_str().is_empty() {
            proof {
                reveal_strlit("(");
            }
            self.buf.append("(");
        } else {
            proof {
                reveal_strlit(", ");
            }
            self.buf.append(", ");
        }
        self.buf.append(s);
    }

    /// Closes the list and hands out its text; the buffer is gone afterwards.
    pub fn consume(self) -> (r: String)
        ensures
            r@ == finished(self@),
    {
        let mut buf = self.buf;
        if !buf.as_str().is_empty() {
            proof {
                reveal_strlit(")");
            }
            buf.append(")");
        }
        buf
    }

    /// Appends the declaration of the variable `param_name` of type
    /// `param_type` at the position named by `prefix`.
    pub fn push_formal(&mut self, prefix: &str, param_name: &str, param_type: &str)
        ensures
            final(self)@ == pushed(old(self)@, formal_fragment(prefix@, param_name@, param_type@)),
    {
        proof {
            reveal_strlit("$");
            reveal_strlit(": ");
        }
        self.push("$");
        self.buf.append(prefix);
        self.buf.append(param_name);
        self.buf.append(": ");
        self.buf.append(param_type);
        assert(self@ =~= pushed(old(self)@, formal_fragment(prefix@, param_name@, param_type@)));
    }

    /// Appends the binding of the argument `param_name` to its variable at
    /// the position named by `prefix`.
    pub fn push_actual(&mut self, prefix: &str, param_name: &str)
        ensures
            final(self)@ == pushed(old(self)@, actual_fragment(prefix@, param_name@)),
    {
        proof {
            reveal_strlit(": $");
        }
        self.push(param_name);
        self.buf.append(": $");
        self.buf.append(prefix);
        self.buf.append(param_name);
        assert(self@ =~= pushed(old(self)@, actual_fragment(prefix@, param_name@)));
    }
}

/// The map after each of `entries` is set in `map`, first to last, so that
/// of two values for one name the later one stays.
pub open spec fn inserted_all(
    map: Map<Seq<char>, serde_json::Value>,
    entries: Seq<(Seq<char>, serde_json::Value)>,
) -> Map<Seq<char>, serde_json::Value>
    decreases entries.len(),
{
    if entries.len() == 0 {
        map
    } else {
        inserted_all(map, entries.drop_last()).insert(entries.last().0, entries.last().1)
    }
}

/// The names after each of `entries` is set among `names`, first to last:
/// a name that is there keeps its place, and a new one comes last.
pub open spec fn named_all(names: Seq<Seq<char>>, entries: Seq<(Seq<char>, serde_json::Value)>) -> Seq<
    Seq<char>,
>
    decreases entries.len(),
{
    if entries.len() == 0 {
        names
    } else {
        let front = named_all(names, entries.drop_last());
        if front.contains(entries.last().0) {
            front
        } else {
            front.push(entries.last().0)
        }
    }
}

/// Accumulates the variables of a request: a flat map from the full name
/// of each variable to its JSON value. Its view is that map.
pub struct VariableBuffer {
    map: ValueMap,
}

impl View for VariableBuffer {
    type V = Map<Seq<char>, serde_json::Value>;

    closed spec fn view(&self) -> Map<Seq<char>, serde_json::Value> {
        self.map@
    }
}

impl VariableBuffer {
    /// The map inside is well formed. Every buffer that this module hands
    /// out is, and its methods keep it so.
    pub closed spec fn wf(&self) -> bool {
        self.map.wf()
    }

    /// The full names of the variables, in the order in which they first
    /// came.
    pub closed spec fn names(&self) -> Seq<Seq<char>> {
        self.map.names()
    }

    /// What printing the variables gives: the text, or the message with
    /// which printing is refused.
    pub closed spec fn json_text(&self) -> Result<Seq<char>, Seq<char>> {
        self.map.json_text()
    }

    pub fn new() -> (r: VariableBuffer)
        ensures
            r.wf(),
            r@ == Map::<Seq<char>, serde_json::Value>::empty(),
            r.names() == Seq::<Seq<char>>::empty(),
    {
        VariableBuffer { map: ValueMap::new() }
    }

    /// Sets the variable `name` at the position named by `prefix`. `value`
    /// is what encoding the value as JSON gave: the JSON value, or the
    /// reason why there is none, with which the call then fails and leaves
    /// the buffer as it was. A value set before under the same full name is
    /// lost, and the name keeps its place; a new name comes last.
    pub fn push_variable(&mut self, prefix: &str, name: &str, value: Result<
        serde_json::Value,
        String,
    >) -> (r: Result<(), Error>)
        requires
            old(self).wf(),
        ensures
            final(self).wf(),
            match value {
                Ok(json) => r is Ok && final(self)@ == old(self)@.insert(prefix@ + name@, json)
                    && final(self).names() == (if old(self).names().contains(prefix@ + name@) {
                    old(self).names()
                } else {
                    old(self).names().push(prefix@ + name@)
                }),
                Err(reason) => r == Err::<(), Error>(Error::SerializationError(reason))
                    && final(self)@ == old(self)@ && final(self).names() == old(self).names(),
            },
    {
        match value {
            Ok(json) => {
                let mut key = prefix.to_owned();
                key.append(name);
                self.map.insert(key, json);
                Ok(())
            },
            Err(reason) => Err(Error::SerializationError(reason)),
        }
    }

    /// The variables as indented JSON text.
    pub fn to_string(self) -> (r: Result<String, Error>)
        requires
            self.wf(),
        ensures
            match r {
                Ok(text) => self.json_text() == Ok::<Seq<char>, Seq<char>>(text@),
                Err(Error::SerializationError(reason)) => self.json_text() == Err::<
                    Seq<char>,
                    Seq<char>,
                >(reason@),
                Err(_) => false,
            },
    {
        match self.map.to_json_text() {
            Ok(text) => Ok(text),
            Err(reason) => Err(Error::SerializationError(reason)),
        }
    }

    /// The variables as a map.
    pub fn into_map(self) -> (r: ValueMap)
        requires
            self.wf(),
        ensures
            r.wf(),
            r@ == self@,
            r.names() == self.names(),
            r.json_text() == self.json_text(),
    {
        self.map
    }
}

/// Home of the naming rule that all parameter trees share.
pub struct GraphQL;

impl GraphQL {
    /// The prefix of the child named `b` of the position whose prefix is
    /// `a`: `a` itself when `b` is empty, else `a`, `b` and an underscore.
    pub open spec fn spec_prefix(a: Seq<char>, b: Seq<char>) -> Seq<char> {
        if b.len() == 0 {
            a
        } else {
            a + b + seq!['_']
        }
    }

    pub fn prefix(a: &str, b: &str) -> (r: String)
        ensures
            r@ == Self::spec_prefix(a@, b@),
    {
        if b.is_empty() {
            a.to_owned()
        } else {
            proof {
                reveal_strlit("_");
            }
            let mut r = a.to_owned();
            r.append(b);
            r.append("_");
            r
        }
    }
}

/// What every parameter object, leaf or composite, can do: contribute its
/// declarations, its bindings and its values under a prefix that the caller
/// hands down.
pub trait GraphQLQueryParams {
    /// The declarations that this tree contributes under `prefix`, in
    /// order. An implementation says here what it contributes; where it
    /// says nothing, nothing is known of it.
    open spec fn formal_params(&self, prefix: Seq<char>) -> Seq<Seq<char>> {
        arbitrary()
    }

    /// The bindings that this tree contributes under `prefix`, in order.
    open spec fn actual_params(&self, prefix: Seq<char>) -> Seq<Seq<char>> {
        arbitrary()
    }

    /// The variables that this tree contributes under `prefix`, each with
    /// its full name, first to last; `None` where one of its values has no
    /// JSON encoding.
    open spec fn variables(&self, prefix: Seq<char>) -> Option<
        Seq<(Seq<char>, serde_json::Value)>,
    > {
        arbitrary()
    }

    fn get_formal_part(&self, params: &mut ParamBuffer, prefix: &str)
        ensures
            final(params)@ == pushed_all(old(params)@, self.formal_params(prefix@)),
    ;

    fn get_actual_part(&self, params: &mut ParamBuffer, prefix: &str)
        ensures
            final(params)@ == pushed_all(old(params)@, self.actual_params(prefix@)),
    ;

    /// Sets every variable of the tree in `variables`, and fails where a
    /// value has no JSON encoding; what the buffer holds after a failure is
    /// left open.
    fn get_variables_part(&self, variables: &mut VariableBuffer, prefix: &str) -> (r: Result<
        (),
        Error,
    >)
        requires
            old(variables).wf(),
        ensures
            final(variables).wf(),
            r is Ok <==> self.variables(prefix@) is Some,
            r is Ok ==> final(variables)@ == inserted_all(
                old(variables)@,
                self.variables(prefix@).unwrap(),
            ),
            r is Ok ==> final(variables).names() == named_all(
                old(variables).names(),
                self.variables(prefix@).unwrap(),
            ),
            r matches Err(e) ==> e is SerializationError,
    ;

    /// The declarations of the whole tree, from the root.
    fn get_formal(&self) -> (r: String)
        ensures
            r@ == rendered(self.formal_params(Seq::empty())),
    {
        let mut params = ParamBuffer::new();
        proof {
            reveal_strlit("");
            assert(""@ =~= Seq::<char>::empty());
        }
        self.get_formal_part(&mut params, "");
        params.consume()
    }

    /// The bindings of the tree as it is embedded at `prefix`.
    fn get_actual(&self, prefix: &str) -> (r: String)
        ensures
            r@ == rendered(self.actual_params(prefix@)),
    {
        let mut params = ParamBuffer::new();
        self.get_actual_part(&mut params, prefix);
        params.consume()
    }

    /// The variables of the whole tree, from the root, as indented JSON
    /// text.
    fn get_variables(&self) -> (r: Result<String, Error>)
        ensures
            self.variables(Seq::empty()) is None ==> r is Err,
            match r {
                Ok(text) => self.variables(Seq::empty()) matches Some(entries) && exists|
                    map: ValueMap,
                |
                    map.wf() && map@ == inserted_all(Map::empty(), entries) && map.json_text()
                        == Ok::<Seq<char>, Seq<char>>(text@),
                Err(Error::SerializationError(reason)) => self.variables(Seq::empty())
                    matches Some(entries) ==> exists|map: ValueMap|
                    map.wf() && map@ == inserted_all(Map::empty(), entries) && map.json_text()
                        == Err::<Seq<char>, Seq<char>>(reason@),
                Err(_) => false,
            },
    {
        let mut variables = VariableBuffer::new();
        proof {
            reveal_strlit("");
            assert(""@ =~= Seq::<char>::empty());
        }
        match self.get_variables_part(&mut variables, "") {
            Ok(()) => {
                let map = variables.into_map();
                match map.to_json_text() {
                    Ok(text) => Ok(text),
                    Err(reason) => Err(Error::SerializationError(reason)),
                }
            },
            Err(e) => Err(e),
        }
    }

    /// The variables of the whole tree, from the root, as a map from full
    /// names to values.
    fn get_variable_map(&self) -> (r: Result<ValueMap, Error>)
        ensures
            match r {
                Ok(map) => self.variables(Seq::empty()) matches Some(entries) && map.wf() && map@
                    == inserted_all(Map::empty(), entries) && map.names() == named_all(
                    Seq::empty(),
                    entries,
                ),
                Err(e) => self.variables(Seq::empty()) is None && e is SerializationError,
            },
    {
        let mut variables = VariableBuffer::new();
        proof {
            reveal_strlit("");
            assert(""@ =~= Seq::<char>::empty());
        }
        match self.get_variables_part(&mut variables, "") {
            Ok(()) => Ok(variables.into_map()),
            Err(e) => Err(e),
        }
    }
}

/// The tree without parameters: it contributes nothing.
#[derive(Debug)]
pub struct NoParams;

impl GraphQLQueryParams for NoParams {
    open spec fn formal_params(&self, prefix: Seq<char>) -> Seq<Seq<char>> {
        Seq::empty()
    }

    open spec fn actual_params(&self, prefix: Seq<char>) -> Seq<Seq<char>> {
        Seq::empty()
    }

    open spec fn variables(&self, prefix: Seq<char>) -> Option<
        Seq<(Seq<char>, serde_json::Value)>,
    > {
        Some(Seq::empty())
    }

    fn get_formal_part(&self, _params: &mut ParamBuffer, _prefix: &str) {
    }

    fn get_actual_part(&self, _params: &mut ParamBuffer, _prefix: &str) {
    }

    fn get_variables_part(&self, _variables: &mut VariableBuffer, _prefix: &str) -> (r: Result<
        (),
        Error,
    >) {
        Ok(())
    }
}

/// A list without fragments renders to the empty text, a list of one
/// fragment to that fragment in parentheses, and every list that has
/// fragments to all of them, `", "` between each two, in one pair of
/// parentheses.
pub proof fn lemma_rendered_list(fragments: Seq<Seq<char>>)
    ensures
        fragments.len() == 0 ==> rendered(fragments) == Seq::<char>::empty(),
        fragments.len() == 1 ==> rendered(fragments) == seq!['('] + fragments[0] + seq![')'],
        fragments.len() > 0 ==> rendered(fragments) == seq!['('] + joined(fragments) + seq![')'],
{
    lemma_pushed_all_joined(fragments);
}

proof fn lemma_pushed_all_joined(fragments: Seq<Seq<char>>)
    ensures
        fragments.len() > 0 ==> pushed_all(Seq::empty(), fragments) == seq!['('] + joined(
            fragments,
        ),
    decreases fragments.len(),
{
    if fragments.len() == 1 {
        assert(pushed_all(Seq::empty(), fragments.drop_last()) == Seq::<char>::empty());
    } else if fragments.len() > 1 {
        let front = fragments.drop_last();
        lemma_pushed_all_joined(front);
        assert(pushed_all(Seq::empty(), fragments) =~= seq!['('] + joined(fragments));
    }
}

/// Whether the names below a child called `a` can be told from the names
/// below its sibling called `b`: both names are non-empty, and neither,
/// followed by its underscore, begins the other followed by its own.
/// Two different names of one length are separable, and so are two
/// different names without an underscore; `a` and `a_b` are not.
pub open spec fn separable(a: Seq<char>, b: Seq<char>) -> bool {
    &&& a.len() > 0
    &&& b.len() > 0
    &&& !(a + seq!['_']).is_prefix_of(b + seq!['_'])
    &&& !(b + seq!['_']).is_prefix_of(a + seq!['_'])
}

/// The prefix of a position begins the prefix of every child of it, and so
/// every name that is declared below that child.
pub proof fn lemma_prefix_extends(a: Seq<char>, b: Seq<char>)
    ensures
        a.is_prefix_of(GraphQL::spec_prefix(a, b)),
{
    if b.len() > 0 {
        assert((a + b + seq!['_']).subrange(0, a.len() as int) =~= a);
    }
}

/// No two full names collide that are declared below two siblings with
/// separable names: whatever follows the prefix of the one and whatever
/// follows the prefix of the other, the two names differ.
pub proof fn lemma_siblings_never_collide(
    prefix: Seq<char>,
    a: Seq<char>,
    b: Seq<char>,
    below_a: Seq<char>,
    below_b: Seq<char>,
)
    requires
        separable(a, b),
    ensures
        GraphQL::spec_prefix(prefix, a) + below_a != GraphQL::spec_prefix(prefix, b) + below_b,
{
    let left = prefix + a + seq!['_'] + below_a;
    let right = prefix + b + seq!['_'] + below_b;
    let head_a = a + seq!['_'];
    let head_b = b + seq!['_'];
    if left == right {
        if head_a.len() <= head_b.len() {
            assert forall|i: int| 0 <= i < head_a.len() implies head_a[i] == head_b[i] by {
                assert(left[prefix.len() + i] == head_a[i]);
                assert(right[prefix.len() + i] == head_b[i]);
            }
            assert(head_b.subrange(0, head_a.len() as int) =~= head_a);
        } else {
            assert forall|i: int| 0 <= i < head_b.len() implies head_a[i] == head_b[i] by {
                assert(left[prefix.len() + i] == head_a[i]);
                assert(right[prefix.len() + i] == head_b[i]);
            }
            assert(head_a.subrange(0, head_b.len() as int) =~= head_b);
        }
    }
}

/// Whether every one of `entries` has a name that begins with `prefix`,
/// as the names have that are declared at the position of that prefix or
/// below it.
pub open spec fn names_under(entries: Seq<(Seq<char>, serde_json::Value)>, prefix: Seq<char>) -> bool {
    forall|i: int| 0 <= i < entries.len() ==> prefix.is_prefix_of(#[trigger] entries[i].0)
}

/// Two trees that are embedded as siblings with separable names share no
/// variable: where each tree names its variables under the prefix that it
/// was handed, no name of the one is a name of the other.
pub proof fn lemma_sibling_trees_never_collide<A: GraphQLQueryParams, B: GraphQLQueryParams>(
    left: &A,
    right: &B,
    prefix: Seq<char>,
    a: Seq<char>,
    b: Seq<char>,
)
    requires
        separable(a, b),
        left.variables(GraphQL::spec_prefix(prefix, a)) matches Some(entries) && names_under(
            entries,
            GraphQL::spec_prefix(prefix, a),
        ),
        right.variables(GraphQL::spec_prefix(prefix, b)) matches Some(entries) && names_under(
            entries,
            GraphQL::spec_prefix(prefix, b),
        ),
    ensures
        forall|i: int, j: int|
            #![trigger
                left.variables(GraphQL::spec_prefix(prefix, a)).unwrap()[i],
                right.variables(GraphQL::spec_prefix(prefix, b)).unwrap()[j]
            ]
            0 <= i < left.variables(GraphQL::spec_prefix(prefix, a)).unwrap().len() && 0 <= j
                < right.variables(GraphQL::spec_prefix(prefix, b)).unwrap().len()
                ==> left.variables(GraphQL::spec_prefix(prefix, a)).unwrap()[i].0
                != right.variables(GraphQL::spec_prefix(prefix, b)).unwrap()[j].0,
{
    let pa = GraphQL::spec_prefix(prefix, a);
    let pb = GraphQL::spec_prefix(prefix, b);
    let l = left.variables(pa).unwrap();
    let r = right.variables(pb).unwrap();
    assert forall|i: int, j: int| 0 <= i < l.len() && 0 <= j < r.len() implies #[trigger] l[i].0
        != #[trigger] r[j].0 by {
        let x = l[i].0;
        let y = r[j].0;
        assert(pa.is_prefix_of(x) && pb.is_prefix_of(y));
        assert(x =~= pa + x.skip(pa.len() as int));
        assert(y =~= pb + y.skip(pb.len() as int));
        lemma_siblings_never_collide(
            prefix,
            a,
            b,
            x.skip(pa.len() as int),
            y.skip(pb.len() as int),
        );
    }
}

/// Two different names that hold no underscore are separable.
pub proof fn lemma_plain_names_separable(a: Seq<char>, b: Seq<char>)
    requires
        a.len() > 0,
        b.len() > 0,
        a != b,
        !a.contains('_'),
        !b.contains('_'),
    ensures
        separable(a, b),
{
    let head_a = a + seq!['_'];
    let head_b = b + seq!['_'];
    if head_a.is_prefix_of(head_b) {
        if a.len() == b.len() {
            assert(a =~= head_a.subrange(0, a.len() as int));
            assert(b =~= head_b.subrange(0, b.len() as int));
            assert(a =~= b);
        } else {
            assert(head_b[a.len() as int] == head_a[a.len() as int]);
            assert(b[a.len() as int] == '_');
        }
    }
    if head_b.is_prefix_of(head_a) {
        if a.len() == b.len() {
            assert(a =~= head_a.subrange(0, a.len() as int));
            assert(b =~= head_b.subrange(0, b.len() as int));
            assert(a =~= b);
        } else {
            assert(head_a[b.len() as int] == head_b[b.len() as int]);
            assert(a[b.len() as int] == '_');
        }
    }
}

/// Rendering reads the tree and leaves it as it is, so it can be repeated:
/// whatever two renderings of one tree return, under one prefix, they
/// return the same texts and the same map.
pub proof fn lemma_rendering_repeats<P: GraphQLQueryParams>(
    tree: &P,
    prefix: &str,
    formal: (String, String),
    actual: (String, String),
    variables: (Result<ValueMap, Error>, Result<ValueMap, Error>),
)
    requires
        call_ensures(P::get_formal, (tree,), formal.0),
        call_ensures(P::get_formal, (tree,), formal.1),
        call_ensures(P::get_actual, (tree, prefix), actual.0),
        call_ensures(P::get_actual, (tree, prefix), actual.1),
        call_ensures(P::get_variable_map, (tree,), variables.0),
        call_ensures(P::get_variable_map, (tree,), variables.1),
    ensures
        formal.0@ == formal.1@,
        actual.0@ == actual.1@,
        variables.0 is Ok <==> variables.1 is Ok,
        variables.0 is Ok ==> variables.0.unwrap()@ == variables.1.unwrap()@,
{
}

/// A query that can render its whole document from its parameters.
pub trait GraphQLQuery<Q: GraphQLQueryParams> {
    fn get_query(request_name: &str, params: &Q) -> String;
}

/// The field list `attributes` of an object in its braces, a space
/// between each brace and the list.
pub open spec fn selection_set(attributes: Seq<char>) -> Seq<char> {
    seq!['{', ' '] + attributes + seq![' ', '}']
}

/// What every result type can do: render the field list that selects its
/// own shape, given the parameter tree that belongs to it and the prefix of
/// the position it is requested at.
pub trait GraphQLType<Q: GraphQLQueryParams> {
    /// The field list of this type for `params` at `prefix`. An
    /// implementation says here what it renders; where it says nothing,
    /// nothing is known of it.
    open spec fn query_attributes(params: &Q, prefix: Seq<char>) -> Seq<char> {
        arbitrary()
    }

    /// The field list in braces.
    fn get_query_part(params: &Q, prefix: &str) -> (r: String)
        ensures
            r@ == selection_set(Self::query_attributes(params, prefix@)),
    {
        proof {
            reveal_strlit("{ ");
            reveal_strlit(" }");
        }
        let attributes = Self::get_query_attributes(params, prefix);
        let mut r = "{ ".to_owned();
        r.append(attributes.as_str());
        r.append(" }");
        assert(r@ =~= selection_set(attributes@));
        r
    }

    fn get_query_attributes(params: &Q, prefix: &str) -> (r: String)
        ensures
            r@ == Self::query_attributes(params, prefix@),
    ;
}

} // verus!
