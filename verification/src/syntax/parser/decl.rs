//! The parser of declarations and files.

use crate::syntax::ast::{
    Attribute, AttributeArg, BaseDimDecl, BindableVisibility, DeclKind, Declaration, DimDecl, Expr, FieldDecl, File,
    ImportDecl, ImportItem, ImportKind, IndexDecl, IndexDeclKind, ModulePath, MultiSlotKind, ParamDecl, TypeDecl,
    TypeDeclBody, UnionMember, UnitConstness, UnitDecl, ValueDecl, Visibility,
};
use crate::syntax::names::{
    ConstructorName, DimName, IndexName, IndexVariantName, ModuleAliasName, NameAtom, StructTypeName, UnitName,
};
use crate::syntax::parser::decl_grammar::{
    attribute, attribute_arg, attribute_args, attributes, bare_declaration, base_decl, closed, declaration,
    declarations, dim_decl, field_decls, file, import_decl, import_items, import_term, index_decl, single_expression,
    type_decl, type_decl_term, union_member, union_members, value_decl, value_kind, value_rest, variants,
};
use crate::syntax::parser::error::ParseError;
use crate::syntax::parser::grammar::{path_idents, path_span, refuse, Parse};
use crate::syntax::parser::multi::{header_of, SlotHeader};
use crate::syntax::parser::multi_grammar::without_bindability;
use crate::syntax::parser::state::{moved, outcome, result, Parser};
use crate::syntax::span::{Span, Spanned};
use crate::syntax::term::{seq_terms, Reading, Spans, Syntax, Term};
use crate::syntax::token::Token;
use vstd::prelude::*;

verus! {

/// The terms of some attributes.
pub open spec fn attribute_terms(v: Vec<Attribute>) -> Seq<Term> {
    seq_terms(v@, Spans::Kept)
}

fn plain_visibility(visibility: BindableVisibility) -> (r: Visibility)
    ensures
        r == without_bindability(visibility),
{
    match visibility {
        BindableVisibility::Private => Visibility::Private,
        _ => Visibility::Public,
    }
}

impl Parser {
    fn parse_attribute_arg(&self, p: usize) -> (r: Result<(AttributeArg, usize), ParseError>)
        requires
            p <= self@.end(),
        ensures
            result(r) == attribute_arg(self@, p as int),
            moved(r, p as int, self@.end()),
        decreases 64 * (self@.end() - p) + 1,
    {
        if self.is(p, Token::Hash) {
            if !self.is(p + 1, Token::Number) {
                return Err(self.refuse_token(p + 1, Token::Number));
            }
            return match self.number_upto(p + 1, u64::MAX as u128) {
                Some(v) => {
                    let span = self.span(p).merge(self.span(p + 1));
                    Ok((AttributeArg::FinitePosition { position: v as u64, span }, p + 2))
                },
                None => Err(
                    ParseError::invalid_number("expected a natural number".to_owned(), self.span(p + 1)),
                ),
            };
        }
        if self.is(p, Token::LParen) {
            let (elements, q) = match self.parse_attribute_args(p + 1) {
                Ok(x) => x,
                Err(e) => return Err(e),
            };
            if !self.is(q, Token::RParen) {
                return Err(self.refuse_token(q, Token::RParen));
            }
            let span = self.span(p).merge(self.span(q));
            return Ok((AttributeArg::Group { elements, span }, q + 1));
        }
        if self.named(p) {
            let last = self.path_last(p);
            return Ok(
                (AttributeArg::Path { segments: self.path_idents(p, last), span: self.path_span(p, last) }, last + 1),
            );
        }
        Err(self.refuse(p, "attribute argument"))
    }

    fn parse_attribute_args(&self, p: usize) -> (r: Result<(Vec<AttributeArg>, usize), ParseError>)
        requires
            p <= self@.end(),
        ensures
            outcome(r, |v: Vec<AttributeArg>| Term::List(AttributeArg::terms(v, Spans::Kept))) == attribute_args(
                self@,
                p as int,
                Seq::empty(),
            ),
            r is Ok ==> p <= r->Ok_0.1 <= self@.end(),
        decreases 64 * (self@.end() - p) + 2,
    {
        let mut items: Vec<AttributeArg> = Vec::new();
        let mut q: usize = p;
        assert(AttributeArg::terms(items, Spans::Kept) =~= Seq::empty());
        loop
            invariant
                p <= q <= self@.end(),
                attribute_args(self@, p as int, Seq::empty()) == attribute_args(
                    self@,
                    q as int,
                    AttributeArg::terms(items, Spans::Kept),
                ),
            decreases self@.end() - q,
        {
            if self.is(q, Token::RParen) {
                return Ok((items, q));
            }
            let (item, r) = match self.parse_attribute_arg(q) {
                Ok(x) => x,
                Err(e) => return Err(e),
            };
            let ghost before = AttributeArg::terms(items, Spans::Kept);
            items.push(item);
            assert(AttributeArg::terms(items, Spans::Kept) =~= before.push(item.to_term(Spans::Kept)));
            if self.is(r, Token::Comma) {
                q = r + 1;
            } else {
                return Ok((items, r));
            }
        }
    }

    fn parse_attribute(&self, p: usize) -> (r: Result<(Attribute, usize), ParseError>)
        ensures
            result(r) == attribute(self@, p as int),
            moved(r, p as int, self@.end()),
    {
        if !self.is(p, Token::Hash) {
            return Err(self.refuse_token(p, Token::Hash));
        }
        if !self.is(p + 1, Token::LBracket) {
            return Err(self.refuse_token(p + 1, Token::LBracket));
        }
        if !self.named(p + 2) {
            return Err(self.refuse(p + 2, "identifier"));
        }
        let name = self.ident(p + 2);
        if !self.is(p + 3, Token::LParen) {
            if !self.is(p + 3, Token::RBracket) {
                return Err(self.refuse_token(p + 3, Token::RBracket));
            }
            let args: Vec<AttributeArg> = Vec::new();
            assert(seq_terms(args@, Spans::Kept) =~= Seq::empty());
            let span = self.span(p).merge(self.span(p + 3));
            return Ok((Attribute { name, args, span }, p + 4));
        }
        let (args, q) = match self.parse_attribute_args(p + 4) {
            Ok(x) => x,
            Err(e) => return Err(e),
        };
        if !self.is(q, Token::RParen) {
            return Err(self.refuse_token(q, Token::RParen));
        }
        if !self.is(q + 1, Token::RBracket) {
            return Err(self.refuse_token(q + 1, Token::RBracket));
        }
        assert(seq_terms(args@, Spans::Kept) =~= AttributeArg::terms(args, Spans::Kept));
        let span = self.span(p).merge(self.span(q + 1));
        Ok((Attribute { name, args, span }, q + 2))
    }

    fn parse_attributes(&self, p: usize) -> (r: Result<(Vec<Attribute>, usize), ParseError>)
        requires
            p <= self@.end(),
        ensures
            result(r) == attributes(self@, p as int, Seq::empty()),
            r is Ok ==> p <= r->Ok_0.1 <= self@.end(),
    {
        let mut items: Vec<Attribute> = Vec::new();
        let mut q: usize = p;
        assert(seq_terms(items@, Spans::Kept) =~= Seq::empty());
        while self.is(q, Token::Hash)
            invariant
                p <= q <= self@.end(),
                attributes(self@, p as int, Seq::empty()) == attributes(
                    self@,
                    q as int,
                    seq_terms(items@, Spans::Kept),
                ),
            decreases self@.end() - q,
        {
            let (item, r) = match self.parse_attribute(q) {
                Ok(x) => x,
                Err(e) => return Err(e),
            };
            let ghost before = seq_terms(items@, Spans::Kept);
            items.push(item);
            assert(seq_terms(items@, Spans::Kept) =~= before.push(item.term(Spans::Kept)));
            q = r;
        }
        Ok((items, q))
    }

    /// The end of a declaration.
    fn close_declaration(&self, attributes: Vec<Attribute>, kind: DeclKind, start: Span, p: usize) -> (r: Result<
        (Declaration, usize),
        ParseError,
    >)
        ensures
            outcome(r, |v: Declaration| v.to_term(Reading::Exact)) == closed(
                self@,
                attribute_terms(attributes),
                kind.to_term(Reading::Exact),
                start,
                p as int,
            ),
            moved(r, p as int, self@.end()),
    {
        if !self.is(p, Token::Semicolon) {
            return Err(self.refuse_token(p, Token::Semicolon));
        }
        let span = start.merge(self.span(p));
        Ok((Declaration { attributes, kind, span }, p + 1))
    }

    fn parse_value_rest(
        &self,
        attributes: Vec<Attribute>,
        start: usize,
        header: SlotHeader,
        visibility: BindableVisibility,
        visibility_span: Option<Span>,
        p: usize,
    ) -> (r: Result<(Declaration, usize), ParseError>)
        requires
            p <= self@.end(),
        ensures
            outcome(r, |v: Declaration| v.to_term(Reading::Exact)) == value_rest(
                self@,
                attribute_terms(attributes),
                start as int,
                header_of(header),
                visibility,
                visibility_span,
                p as int,
            ),
            moved(r, p as int, self@.end()),
    {
        if self.is(p, Token::Comma) {
            if attributes.len() > 0 {
                return Err(
                    ParseError::unexpected(
                        "no attributes on a multi-declaration".to_owned(),
                        "#".to_owned(),
                        self.span(start),
                    ),
                );
            }
            return self.parse_multi_decl_rest(header, visibility, visibility_span, p);
        }
        match Parser::check_value_decl_visibility(visibility, visibility_span, header.kind) {
            Ok(_) => {},
            Err(e) => return Err(e),
        }
        let kind_span = header.kind_span;
        if header.kind == MultiSlotKind::Param && self.is(p, Token::Semicolon) {
            let kind = DeclKind::Param(ParamDecl { name: header.name, type_ann: header.type_ann, value: None });
            let span = kind_span.merge(self.span(p));
            return Ok((Declaration { attributes, kind, span }, p + 1));
        }
        if !self.is(p, Token::Eq) {
            return Err(self.refuse_token(p, Token::Eq));
        }
        let (value, q) = match self.parse_expr(p + 1, 0) {
            Ok(x) => x,
            Err(e) => return Err(e),
        };
        let kind = value_into_kind(header, value);
        self.close_declaration(attributes, kind, kind_span, q)
    }

    fn parse_variants(&self, p: usize) -> (r: Result<(Vec<Spanned<IndexVariantName>>, usize), ParseError>)
        requires
            p <= self@.end(),
        ensures
            result(r) == variants(self@, p as int, Seq::empty()),
            r is Ok ==> p <= r->Ok_0.1 <= self@.end(),
    {
        let mut items: Vec<Spanned<IndexVariantName>> = Vec::new();
        let mut q: usize = p;
        assert(seq_terms(items@, Spans::Kept) =~= Seq::empty());
        loop
            invariant
                p <= q <= self@.end(),
                variants(self@, p as int, Seq::empty()) == variants(self@, q as int, seq_terms(items@, Spans::Kept)),
            decreases self@.end() - q,
        {
            if self.is(q, Token::RBrace) {
                return Ok((items, q));
            }
            if !self.named(q) {
                return Err(self.refuse(q, "identifier"));
            }
            let item = Spanned { value: IndexVariantName { atom: NameAtom { text: self.text(q) } }, span: self.span(q) };
            let ghost before = seq_terms(items@, Spans::Kept);
            items.push(item);
            assert(seq_terms(items@, Spans::Kept) =~= before.push(item.term(Spans::Kept)));
            if self.is(q + 1, Token::Comma) {
                q = q + 2;
            } else {
                return Ok((items, q + 1));
            }
        }
    }

    fn parse_index_decl(&self, attributes: Vec<Attribute>, visibility: BindableVisibility, p: usize) -> (r: Result<
        (Declaration, usize),
        ParseError,
    >)
        requires
            p < self@.end(),
        ensures
            outcome(r, |v: Declaration| v.to_term(Reading::Exact)) == index_decl(
                self@,
                attribute_terms(attributes),
                visibility,
                p as int,
            ),
            moved(r, p as int, self@.end()),
    {
        let start = self.span(p);
        if !self.named(p + 1) {
            return Err(self.refuse(p + 1, "identifier"));
        }
        let name = Spanned { value: IndexName { atom: NameAtom { text: self.text(p + 1) } }, span: self.span(p + 1) };
        if self.is(p + 2, Token::Semicolon) {
            let kind = DeclKind::Index(IndexDecl { visibility, name, kind: IndexDeclKind::RequiredNamed });
            return self.close_declaration(attributes, kind, start, p + 2);
        }
        if !self.is(p + 2, Token::Eq) {
            return Err(self.refuse_token(p + 2, Token::Eq));
        }
        if !self.is(p + 3, Token::LBrace) {
            return Err(self.refuse_token(p + 3, Token::LBrace));
        }
        let (variants, q) = match self.parse_variants(p + 4) {
            Ok(x) => x,
            Err(e) => return Err(e),
        };
        if !self.is(q, Token::RBrace) {
            return Err(self.refuse_token(q, Token::RBrace));
        }
        let kind = DeclKind::Index(IndexDecl { visibility, name, kind: IndexDeclKind::Named { variants } });
        self.close_declaration(attributes, kind, start, q + 1)
    }

    fn parse_field_decls(&self, p: usize) -> (r: Result<(Vec<FieldDecl>, usize), ParseError>)
        requires
            p <= self@.end(),
        ensures
            outcome(r, |v: Vec<FieldDecl>| Term::List(FieldDecl::terms(v, Reading::Exact))) == field_decls(
                self@,
                p as int,
                Seq::empty(),
            ),
            r is Ok ==> p <= r->Ok_0.1 <= self@.end(),
    {
        let mut items: Vec<FieldDecl> = Vec::new();
        let mut q: usize = p;
        assert(FieldDecl::terms(items, Reading::Exact) =~= Seq::empty());
        loop
            invariant
                p <= q <= self@.end(),
                field_decls(self@, p as int, Seq::empty()) == field_decls(
                    self@,
                    q as int,
                    FieldDecl::terms(items, Reading::Exact),
                ),
            decreases self@.end() - q,
        {
            if self.is(q, Token::RParen) {
                return Ok((items, q));
            }
            if !self.named(q) {
                return Err(self.refuse(q, "identifier"));
            }
            if !self.is(q + 1, Token::Colon) {
                return Err(self.refuse_token(q + 1, Token::Colon));
            }
            let (type_ann, r) = match self.parse_type_expr(q + 2, 0) {
                Ok(x) => x,
                Err(e) => return Err(e),
            };
            let item = FieldDecl { name: self.field_name(q), type_ann };
            let ghost before = FieldDecl::terms(items, Reading::Exact);
            items.push(item);
            assert(FieldDecl::terms(items, Reading::Exact) =~= before.push(item.to_term(Reading::Exact)));
            if self.is(r, Token::Comma) {
                q = r + 1;
            } else {
                return Ok((items, r));
            }
        }
    }

    fn parse_union_member(&self, p: usize) -> (r: Result<(UnionMember, usize), ParseError>)
        ensures
            outcome(r, |v: UnionMember| v.to_term(Reading::Exact)) == union_member(self@, p as int),
            moved(r, p as int, self@.end()),
    {
        if !self.named(p) {
            return Err(self.refuse(p, "identifier"));
        }
        let name = Spanned { value: ConstructorName { atom: NameAtom { text: self.text(p) } }, span: self.span(p) };
        if !self.is(p + 1, Token::LParen) {
            return Ok((UnionMember { name, payload: None, span: self.span(p) }, p + 1));
        }
        let (fields, q) = match self.parse_field_decls(p + 2) {
            Ok(x) => x,
            Err(e) => return Err(e),
        };
        if !self.is(q, Token::RParen) {
            return Err(self.refuse_token(q, Token::RParen));
        }
        let span = self.span(p).merge(self.span(q));
        Ok((UnionMember { name, payload: Some(fields), span }, q + 1))
    }

    fn parse_union_members(&self, p: usize) -> (r: Result<(Vec<UnionMember>, usize), ParseError>)
        requires
            p <= self@.end(),
        ensures
            outcome(r, |v: Vec<UnionMember>| Term::List(UnionMember::terms(v, Reading::Exact))) == union_members(
                self@,
                p as int,
                Seq::empty(),
            ),
            r is Ok ==> p <= r->Ok_0.1 <= self@.end(),
    {
        let mut items: Vec<UnionMember> = Vec::new();
        let mut q: usize = p;
        assert(UnionMember::terms(items, Reading::Exact) =~= Seq::empty());
        loop
            invariant
                p <= q <= self@.end(),
                union_members(self@, p as int, Seq::empty()) == union_members(
                    self@,
                    q as int,
                    UnionMember::terms(items, Reading::Exact),
                ),
            decreases self@.end() - q,
        {
            if self.is(q, Token::RBrace) {
                return Ok((items, q));
            }
            let (item, r) = match self.parse_union_member(q) {
                Ok(x) => x,
                Err(e) => return Err(e),
            };
            let ghost before = UnionMember::terms(items, Reading::Exact);
            items.push(item);
            assert(UnionMember::terms(items, Reading::Exact) =~= before.push(item.to_term(Reading::Exact)));
            if self.is(r, Token::Comma) {
                q = r + 1;
            } else {
                return Ok((items, r));
            }
        }
    }

    /// A type declaration with a body.
    fn type_kind(&self, visibility: BindableVisibility, p: usize, body: TypeDeclBody) -> (r: DeclKind)
        requires
            p < usize::MAX,
        ensures
            r.to_term(Reading::Exact) == type_decl_term(
                self@,
                visibility,
                p as int,
                body.to_term(Reading::Exact),
            ),
    {
        let name = Spanned {
            value: StructTypeName { atom: NameAtom { text: self.text(p + 1) } },
            span: self.span(p + 1),
        };
        let generic_params = Vec::new();
        let decl = TypeDecl { visibility, name, generic_params, body };
        proof {
            assert(crate::syntax::ast::GenericParam::terms(generic_params, Reading::Exact) =~= Seq::empty());
        }
        DeclKind::Type(decl)
    }

    fn parse_type_decl(&self, attributes: Vec<Attribute>, visibility: BindableVisibility, p: usize) -> (r: Result<
        (Declaration, usize),
        ParseError,
    >)
        requires
            p < self@.end(),
        ensures
            outcome(r, |v: Declaration| v.to_term(Reading::Exact)) == type_decl(
                self@,
                attribute_terms(attributes),
                visibility,
                p as int,
            ),
            moved(r, p as int, self@.end()),
    {
        let start = self.span(p);
        if !self.named(p + 1) {
            return Err(self.refuse(p + 1, "identifier"));
        }
        if self.is(p + 2, Token::Semicolon) {
            let kind = self.type_kind(visibility, p, TypeDeclBody::Required);
            return self.close_declaration(attributes, kind, start, p + 2);
        }
        if !self.is(p + 2, Token::LBrace) {
            return Err(self.refuse_token(p + 2, Token::LBrace));
        }
        let (members, q) = match self.parse_union_members(p + 3) {
            Ok(x) => x,
            Err(e) => return Err(e),
        };
        if !self.is(q, Token::RBrace) {
            return Err(self.refuse_token(q, Token::RBrace));
        }
        let kind = self.type_kind(visibility, p, TypeDeclBody::Constructors(members));
        let span = start.merge(self.span(q));
        Ok((Declaration { attributes, kind, span }, q + 1))
    }

    fn parse_base_decl(&self, attributes: Vec<Attribute>, visibility: BindableVisibility, p: usize) -> (r: Result<
        (Declaration, usize),
        ParseError,
    >)
        requires
            p < self@.end(),
        ensures
            outcome(r, |v: Declaration| v.to_term(Reading::Exact)) == base_decl(
                self@,
                attribute_terms(attributes),
                visibility,
                p as int,
            ),
            moved(r, p as int, self@.end()),
    {
        let start = self.span(p);
        if self.is(p + 1, Token::Dim) {
            if !self.named(p + 2) {
                return Err(self.refuse(p + 2, "identifier"));
            }
            let name = Spanned { value: DimName { atom: NameAtom { text: self.text(p + 2) } }, span: self.span(p + 2) };
            let kind = DeclKind::BaseDimension(BaseDimDecl { visibility: plain_visibility(visibility), name });
            return self.close_declaration(attributes, kind, start, p + 3);
        }
        if !self.is(p + 1, Token::Unit) {
            return Err(self.refuse(p + 1, "`dim` or `unit`"));
        }
        if !self.named(p + 2) {
            return Err(self.refuse(p + 2, "identifier"));
        }
        if !self.is(p + 3, Token::Colon) {
            return Err(self.refuse_token(p + 3, Token::Colon));
        }
        let name = Spanned { value: UnitName { atom: NameAtom { text: self.text(p + 2) } }, span: self.span(p + 2) };
        let (dim_type, q) = match self.parse_dim_expr(p + 4) {
            Ok(x) => x,
            Err(e) => return Err(e),
        };
        let kind = DeclKind::Unit(
            UnitDecl {
                visibility: plain_visibility(visibility),
                constness: UnitConstness::Const,
                name,
                dim_type,
                definition: None,
            },
        );
        self.close_declaration(attributes, kind, start, q)
    }

    fn parse_dim_decl(&self, attributes: Vec<Attribute>, visibility: BindableVisibility, p: usize) -> (r: Result<
        (Declaration, usize),
        ParseError,
    >)
        requires
            p < self@.end(),
        ensures
            outcome(r, |v: Declaration| v.to_term(Reading::Exact)) == dim_decl(
                self@,
                attribute_terms(attributes),
                visibility,
                p as int,
            ),
            moved(r, p as int, self@.end()),
    {
        let start = self.span(p);
        if !self.named(p + 1) {
            return Err(self.refuse(p + 1, "identifier"));
        }
        if !self.is(p + 2, Token::Eq) {
            return Err(self.refuse_token(p + 2, Token::Eq));
        }
        let name = Spanned { value: DimName { atom: NameAtom { text: self.text(p + 1) } }, span: self.span(p + 1) };
        let (definition, q) = match self.parse_dim_expr(p + 3) {
            Ok(x) => x,
            Err(e) => return Err(e),
        };
        let kind = DeclKind::Dimension(DimDecl { visibility: plain_visibility(visibility), name, definition });
        self.close_declaration(attributes, kind, start, q)
    }

    fn parse_import_items(&self, p: usize) -> (r: Result<(Vec<ImportItem>, usize), ParseError>)
        requires
            p <= self@.end(),
        ensures
            result(r) == import_items(self@, p as int, Seq::empty()),
            r is Ok ==> p <= r->Ok_0.1 <= self@.end(),
    {
        let mut items: Vec<ImportItem> = Vec::new();
        let mut q: usize = p;
        assert(seq_terms(items@, Spans::Kept) =~= Seq::empty());
        loop
            invariant
                p <= q <= self@.end(),
                import_items(self@, p as int, Seq::empty()) == import_items(
                    self@,
                    q as int,
                    seq_terms(items@, Spans::Kept),
                ),
            decreases self@.end() - q,
        {
            if self.is(q, Token::RBrace) {
                return Ok((items, q));
            }
            if !self.named(q) {
                return Err(self.refuse(q, "identifier"));
            }
            let renamed = self.is(q + 1, Token::As);
            if renamed && !self.named(q + 2) {
                return Err(self.refuse(q + 2, "identifier"));
            }
            let name = self.ident(q);
            let alias = if renamed {
                Some(self.ident(q + 2))
            } else {
                None
            };
            let next: usize = if renamed {
                q + 3
            } else {
                q + 1
            };
            let none: Vec<Attribute> = Vec::new();
            let item = ImportItem { attributes: none, is_pub: false, namespace: None, name, alias };
            let ghost before = seq_terms(items@, Spans::Kept);
            items.push(item);
            proof {
                assert(seq_terms(none@, Spans::Kept) =~= Seq::empty());
                assert(seq_terms(items@, Spans::Kept) =~= before.push(item.term(Spans::Kept)));
            }
            if self.is(next, Token::Comma) {
                q = next + 1;
            } else {
                return Ok((items, next));
            }
        }
    }

    fn import_kind(&self, p: usize, last: usize, kind: ImportKind) -> (r: DeclKind)
        requires
            p <= last < self@.end(),
        ensures
            r.to_term(Reading::Exact) == import_term(self@, p as int, last as int, kind.term(Spans::Kept)),
    {
        let path = ModulePath { segments: self.path_idents(p, last), span: self.path_span(p, last) };
        DeclKind::Import(ImportDecl { path, kind })
    }

    fn parse_import_decl(&self, attributes: Vec<Attribute>, p: usize) -> (r: Result<(Declaration, usize), ParseError>)
        requires
            p < self@.end(),
        ensures
            outcome(r, |v: Declaration| v.to_term(Reading::Exact)) == import_decl(
                self@,
                attribute_terms(attributes),
                p as int,
            ),
            moved(r, p as int, self@.end()),
    {
        let start = self.span(p);
        if !self.named(p + 1) {
            return Err(self.refuse(p + 1, "identifier"));
        }
        let last = self.path_last(p + 1);
        if self.is(last + 1, Token::Dot) && self.is_after(last, 2, Token::LBrace) {
            let (items, q) = match self.parse_import_items(last + 3) {
                Ok(x) => x,
                Err(e) => return Err(e),
            };
            if !self.is(q, Token::RBrace) {
                return Err(self.refuse_token(q, Token::RBrace));
            }
            let kind = self.import_kind(p + 1, last, ImportKind::Selective(items));
            return self.close_declaration(attributes, kind, start, q + 1);
        }
        if !self.is(last + 1, Token::As) {
            let kind = self.import_kind(p + 1, last, ImportKind::Module { alias: None });
            return self.close_declaration(attributes, kind, start, last + 1);
        }
        if !self.named(last + 2) {
            return Err(self.refuse(last + 2, "identifier"));
        }
        let alias = Spanned {
            value: ModuleAliasName { atom: NameAtom { text: self.text(last + 2) } },
            span: self.span(last + 2),
        };
        let kind = self.import_kind(p + 1, last, ImportKind::Module { alias: Some(alias) });
        self.close_declaration(attributes, kind, start, last + 3)
    }

    fn parse_value_decl(
        &self,
        attributes: Vec<Attribute>,
        start: usize,
        visibility: BindableVisibility,
        span: Option<Span>,
        p: usize,
    ) -> (r: Result<(Declaration, usize), ParseError>)
        requires
            p <= self@.end(),
        ensures
            outcome(r, |v: Declaration| v.to_term(Reading::Exact)) == value_decl(
                self@,
                attribute_terms(attributes),
                start as int,
                visibility,
                span,
                p as int,
            ),
            moved(r, p as int, self@.end()),
    {
        let ((kind, kind_span), q) = match self.parse_slot_kind(p) {
            Ok(x) => x,
            Err(e) => return Err(e),
        };
        match self.parse_slot_header_tail(visibility, kind, kind_span, q) {
            Ok((header, r)) => self.parse_value_rest(attributes, start, header, visibility, span, r),
            Err(e) => Err(e),
        }
    }

    fn parse_bare_declaration(
        &self,
        attributes: Vec<Attribute>,
        start: usize,
        visibility: BindableVisibility,
        span: Option<Span>,
        p: usize,
    ) -> (r: Result<(Declaration, usize), ParseError>)
        requires
            p <= self@.end(),
        ensures
            outcome(r, |v: Declaration| v.to_term(Reading::Exact)) == bare_declaration(
                self@,
                attribute_terms(attributes),
                start as int,
                visibility,
                span,
                p as int,
            ),
            moved(r, p as int, self@.end()),
    {
        match self.token(p) {
            Some(Token::Param) => self.parse_value_decl(attributes, start, visibility, span, p),
            Some(Token::Node) => self.parse_value_decl(attributes, start, visibility, span, p),
            Some(Token::Const) => self.parse_value_decl(attributes, start, visibility, span, p),
            Some(Token::Index) => self.parse_index_decl(attributes, visibility, p),
            Some(Token::Type) => self.parse_type_decl(attributes, visibility, p),
            Some(Token::Base) => self.parse_base_decl(attributes, visibility, p),
            Some(Token::Dim) => self.parse_dim_decl(attributes, visibility, p),
            Some(Token::Import) => self.parse_import_decl(attributes, p),
            _ => Err(self.refuse(p, "declaration")),
        }
    }

    fn parse_declaration(&self, p: usize) -> (r: Result<(Declaration, usize), ParseError>)
        requires
            p <= self@.end(),
        ensures
            outcome(r, |v: Declaration| v.to_term(Reading::Exact)) == declaration(self@, p as int),
            moved(r, p as int, self@.end()),
    {
        let (attributes, q) = match self.parse_attributes(p) {
            Ok(x) => x,
            Err(e) => return Err(e),
        };
        let ((visibility, span), r) = match self.parse_visibility_prefix(q) {
            Ok(x) => x,
            Err(e) => return Err(e),
        };
        self.parse_bare_declaration(attributes, p, visibility, span, r)
    }

    /// Parse the whole source as a file.
    pub fn parse_file(&self) -> (r: Result<File, ParseError>)
        ensures
            match r {
                Ok(parsed) => file(self@) == Parse::Read(parsed.to_term(Reading::Exact), self@.end()),
                Err(e) => file(self@) == Parse::Refused(e.to_term()),
            },
    {
        let mut items: Vec<Declaration> = Vec::new();
        let mut q: usize = 0;
        assert(Declaration::terms(items, Reading::Exact) =~= Seq::empty());
        while q < self.lexemes.len()
            invariant
                q <= self@.end(),
                declarations(self@, 0, Seq::empty()) == declarations(
                    self@,
                    q as int,
                    Declaration::terms(items, Reading::Exact),
                ),
            decreases self@.end() - q,
        {
            match self.parse_declaration(q) {
                Ok((item, r)) => {
                    let ghost before = Declaration::terms(items, Reading::Exact);
                    items.push(item);
                    assert(Declaration::terms(items, Reading::Exact) =~= before.push(item.to_term(Reading::Exact)));
                    q = r;
                },
                Err(e) => {
                    return Err(e);
                },
            }
        }
        Ok(File { declarations: items })
    }

    /// Parse the whole source as one expression.
    pub fn parse_single_expr(&self) -> (r: Result<Expr, ParseError>)
        ensures
            match r {
                Ok(e) => single_expression(self@) == Parse::Read(e.to_term(Reading::Exact), self@.end()),
                Err(e) => single_expression(self@) == Parse::Refused(e.to_term()),
            },
    {
        match self.parse_expr(0, 0) {
            Ok((e, q)) => if q == self.lexemes.len() {
                Ok(e)
            } else {
                Err(self.refuse(q, "end of input"))
            },
            Err(e) => Err(e),
        }
    }
}

/// A value declaration with its value.
fn value_into_kind(header: SlotHeader, value: Expr) -> (r: DeclKind)
    ensures
        r.to_term(Reading::Exact) == value_kind(header_of(header), value.to_term(Reading::Exact)),
{
    match header.kind {
        MultiSlotKind::Param => DeclKind::Param(
            ParamDecl { name: header.name, type_ann: header.type_ann, value: Some(value) },
        ),
        MultiSlotKind::Node => DeclKind::Node(
            ValueDecl { visibility: header.visibility, name: header.name, type_ann: header.type_ann, value },
        ),
        MultiSlotKind::ConstNode => DeclKind::ConstNode(
            ValueDecl { visibility: header.visibility, name: header.name, type_ann: header.type_ann, value },
        ),
    }
}

} // verus!
